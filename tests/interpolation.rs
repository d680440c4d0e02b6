use zoomer::ExponentialSmoothing;

#[test]
fn exponential_smoothing_keeps_its_settings() {
    let s = ExponentialSmoothing::new(0.5_f32, 2.5_f32);
    assert_eq!(s.length_sec(), 0.5);
    assert_eq!(s.exp_rate(), 2.5);
}
