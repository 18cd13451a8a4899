use audio_flow::SimpleResampler;

#[test]
fn resampler_steps_by_the_rate_ratio() {
    let mut resampler = SimpleResampler::new(48000, 44100);
    assert_eq!(resampler.next_tap(), (0, 0));
    assert_eq!(resampler.next_tap(), (1, 3900));
    assert_eq!(resampler.next_tap(), (2, 7800));
    assert_eq!(resampler.position(), 144000);
}

#[test]
fn resampler_wraps_after_a_block() {
    let mut resampler = SimpleResampler::new(48000, 44100);
    for _ in 0..5 {
        resampler.next_tap();
    }
    resampler.finish_block(5);
    assert_eq!(resampler.position(), 240000 - 220500);
    resampler.finish_block(5);
    assert_eq!(resampler.position(), 19500);
}

#[test]
fn resampler_reset_returns_to_the_start() {
    let mut resampler = SimpleResampler::new(44100, 48000);
    resampler.next_tap();
    resampler.reset();
    assert_eq!(resampler.position(), 0);
    assert_eq!(resampler.input_rate(), 44100);
    assert_eq!(resampler.output_rate(), 48000);
    assert!(resampler.can_advance());
}

#[test]
fn equal_rates_read_every_sample() {
    let mut resampler = SimpleResampler::new(44100, 44100);
    let taps: Vec<(u64, u32)> = (0..3).map(|_| resampler.next_tap()).collect();
    assert_eq!(taps, vec![(0, 0), (1, 0), (2, 0)]);
}
