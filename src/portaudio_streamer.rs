use crate::sample_buffer::SampleBuffer;
use vstd::prelude::*;

verus! {

/// How many samples one fill step moves: all that are pending, or as many
/// as the output still has room for, whichever is fewer.
pub open spec fn fill_amount(pending: nat, room: nat) -> nat {
    if pending >= room {
        room
    } else {
        pending
    }
}

/// One step of filling a device output buffer from the sample ring.
///
/// Copies as many pending samples as fit into `out_buffer[buffer_index..]`
/// and returns the index up to which the buffer is now filled. When that
/// index is short of the buffer's end the ring is empty: the caller refills
/// it with the next chunk and calls again from the returned index.
pub fn fill_pa_buffer<T: Copy>(
    queued_samples: &mut SampleBuffer<T>,
    out_buffer: &mut [T],
    buffer_index: usize,
) -> (filled: usize)
    requires
        old(queued_samples).wf(),
        buffer_index <= old(out_buffer)@.len(),
    ensures
        filled == buffer_index + fill_amount(
            old(queued_samples).pending().len(),
            (old(out_buffer)@.len() - buffer_index) as nat,
        ),
        final(queued_samples).wf(),
        final(queued_samples).samples() == old(queued_samples).samples(),
        final(queued_samples).position() == old(queued_samples).position() + (filled
            - buffer_index),
        final(out_buffer)@ == old(out_buffer)@.subrange(0, buffer_index as int) + old(
            queued_samples,
        ).pending().subrange(0, filled - buffer_index) + old(out_buffer)@.subrange(
            filled as int,
            old(out_buffer)@.len() as int,
        ),
        filled < old(out_buffer)@.len() ==> final(queued_samples).pending().len() == 0,
{
    let queued_elements_remaining = queued_samples.elements_remaining();
    let room = out_buffer.len() - buffer_index;
    if queued_elements_remaining >= room {
        queued_samples.consume_range(out_buffer, buffer_index, room);
        buffer_index + room
    } else {
        queued_samples.consume_range(out_buffer, buffer_index, queued_elements_remaining);
        buffer_index + queued_elements_remaining
    }
}

} // verus!
