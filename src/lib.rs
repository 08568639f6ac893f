//! Verified core of an image-to-audio sonifier: period caches and their
//! rolling copies, the sample ring that feeds an audio device, the image
//! slicing and luminance extraction that drive the oscillator bands.

pub mod arrays;
pub mod conductor;
pub mod img_dispatcher;
pub mod img_interpreter;
pub mod img_matrix;
pub mod portaudio_streamer;
pub mod sample_buffer;
pub mod synth;

