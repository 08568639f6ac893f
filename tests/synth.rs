use spectrophoner::synth::{populate_square_period, Oscillator};

fn sine_period(len: usize) -> Vec<f32> {
    let x_scale = std::f32::consts::PI * 2. / (len as f32);
    (0..len).map(|i| ((i as f32) * x_scale).sin()).collect()
}

fn assert_almost_eq_by_element(left: Vec<f32>, right: Vec<f32>) {
    assert_eq!(left.len(), right.len());
    for (l, r) in left.iter().zip(right.iter()) {
        assert!((l - r).abs() < 1.0e-6, "{} is not approximately equal to {}", l, r);
    }
}

#[test]
fn get_samples_preserves_phase() {
    let mut osc = Oscillator::new(sine_period(44100 / 4410));
    let mut samples = osc.get_samples(10);
    samples.append(&mut osc.get_samples(10));
    let expected: Vec<f32> = vec![
        0.0, 0.58778524, 0.95105654, 0.9510565, 0.5877852,
        -0.00000008742278, -0.58778536, -0.9510565, -0.9510565, -0.58778495,
        0.0, 0.58778524, 0.95105654, 0.9510565, 0.5877852,
        -0.00000008742278, -0.58778536, -0.9510565, -0.9510565, -0.58778495,
    ];
    assert_almost_eq_by_element(samples, expected);
}

#[test]
fn mod_t() {}

#[test]
fn square_period_known_good_output() {
    let mut period = Vec::<f32>::new();
    populate_square_period(&mut period, 44100 / 4410, 1.0, -1.0);
    let expected = vec![1.0, 1.0, 1.0, 1.0, 1.0, -1.0, -1.0, -1.0, -1.0, -1.0];
    assert_almost_eq_by_element(period, expected);
}

#[test]
fn square_period_odd_length_rounds_high_half_up() {
    let mut period = vec![0i8];
    populate_square_period(&mut period, 5, 1, -1);
    assert_eq!(period, [0, 1, 1, 1, -1, -1]);
}

#[test]
fn split_requests_match_one_request() {
    let period = vec![1u8, 2, 3, 4];
    let mut split = Oscillator::new(period.clone());
    let mut samples = split.get_samples(3);
    samples.append(&mut split.get_samples(6));
    let mut whole = Oscillator::new(period);
    assert_eq!(samples, whole.get_samples(9));
    assert_eq!(samples, [1, 2, 3, 4, 1, 2, 3, 4, 1]);
}

#[test]
fn phase_wraps_after_a_whole_number_of_periods() {
    let mut osc = Oscillator::new(vec![10u8, 20, 30]);
    assert_eq!(osc.get_samples(6), [10, 20, 30, 10, 20, 30]);
    assert_eq!(osc.get_samples(2), [10, 20]);
    assert_eq!(osc.get_samples(2), [30, 10]);
}
