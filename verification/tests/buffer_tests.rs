use audio::buffer::{peak, Buffer};
use audio::sample::FRAC_ONE;
use audio::SoundError;

#[test]
fn new_rejects_channel_count_zero() {
    assert_eq!(Buffer::new(44100, 0, vec![1, 2]).err(), Some(SoundError::InvalidBuffer));
}

#[test]
fn new_rejects_channel_count_three() {
    assert_eq!(Buffer::new(44100, 3, vec![1, 2, 3]).err(), Some(SoundError::InvalidBuffer));
}

#[test]
fn new_rejects_odd_sample_count_for_stereo() {
    assert_eq!(Buffer::new(44100, 2, vec![1, 2, 3]).err(), Some(SoundError::InvalidBuffer));
}

#[test]
fn new_accepts_mono_and_stereo() {
    let mono = Buffer::new(44100, 1, vec![1, 2, 3]).unwrap();
    assert_eq!(mono.channel_count(), 1);
    assert_eq!(mono.channel_duration_in_samples(), 3);
    assert_eq!(mono.sample_rate(), 44100);
    let stereo = Buffer::new(22050, 2, vec![1, 2, 3, 4]).unwrap();
    assert_eq!(stereo.channel_count(), 2);
    assert_eq!(stereo.channel_duration_in_samples(), 2);
}

#[test]
fn new_accepts_empty_samples() {
    let empty = Buffer::new(44100, 2, Vec::new()).unwrap();
    assert_eq!(empty.channel_duration_in_samples(), 0);
}

#[test]
fn peak_is_the_largest_magnitude() {
    assert_eq!(peak(&[]), 0);
    assert_eq!(peak(&[3, -7, 5]), 7);
    assert_eq!(peak(&[-1, 1]), 1);
    assert_eq!(peak(&[i64::MIN]), i64::MAX); // saturated magnitude
}

#[test]
fn normalize_scales_the_peak_to_the_target() {
    let mut b = Buffer::new(44100, 1, vec![FRAC_ONE / 2, -FRAC_ONE / 4, 0]).unwrap();
    // Peak is 0.5; normalizing to 1.0 doubles every sample.
    b.normalize(FRAC_ONE);
    assert_eq!(b.samples().as_slice(), &[FRAC_ONE, -FRAC_ONE / 2, 0]);
}

#[test]
fn normalize_leaves_silence_alone() {
    let mut b = Buffer::new(44100, 1, vec![0, 0]).unwrap();
    b.normalize(FRAC_ONE);
    assert_eq!(b.samples().as_slice(), &[0, 0]);
}

#[test]
fn apply_maps_every_sample() {
    let mut b = Buffer::new(44100, 2, vec![1, -2, 3, -4]).unwrap();
    b.apply(|s| s * 10);
    assert_eq!(b.samples().as_slice(), &[10, -20, 30, -40]);
}

#[test]
fn duration_counts_nanoseconds_per_frame() {
    let b = Buffer::new(1000, 1, vec![0; 500]).unwrap();
    // 500 frames at 1000 Hz is half a second.
    assert_eq!(b.duration(), 500_000_000);
    let zero_rate = Buffer::new(0, 1, vec![0; 10]).unwrap();
    assert_eq!(zero_rate.duration(), 0);
}
