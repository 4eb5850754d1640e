use audio::delay::Delay;
use audio::listener::{geometric_pan, isqrt, Listener};
use audio::sample::{lerp, sat_add, scale, scale_signed, FRAC_ONE};
use audio::source::{SoundSource, Vec3I};
use audio::wav::make_wav_header;

#[test]
fn wav_header_layout_is_exact() {
    let h = make_wav_header(2, 44100, 1000);
    assert_eq!(h.len(), 44);
    assert_eq!(&h[0..4], b"RIFF");
    // block_align = 2 channels * 4 bytes; data = 1000 frames * 8 bytes.
    let data_chunk_size: u32 = 8000;
    let file_size: u32 = 36 + data_chunk_size;
    assert_eq!(&h[4..8], &file_size.to_le_bytes());
    assert_eq!(&h[8..12], b"WAVE");
    assert_eq!(&h[12..16], b"fmt ");
    assert_eq!(&h[16..20], &16u32.to_le_bytes());
    assert_eq!(&h[20..22], &3u16.to_le_bytes()); // IEEE float
    assert_eq!(&h[22..24], &2u16.to_le_bytes()); // channels
    assert_eq!(&h[24..28], &44100u32.to_le_bytes());
    assert_eq!(&h[28..32], &(44100u32 * 8).to_le_bytes()); // byte rate
    assert_eq!(&h[32..34], &8u16.to_le_bytes()); // block align
    assert_eq!(&h[34..36], &32u16.to_le_bytes()); // bits per sample
    assert_eq!(&h[36..40], b"data");
    assert_eq!(&h[40..44], &data_chunk_size.to_le_bytes());
}

#[test]
fn delay_emits_after_its_length() {
    let mut d = Delay::new(3);
    assert_eq!(d.process(10), 0);
    assert_eq!(d.process(20), 0);
    assert_eq!(d.process(30), 0);
    assert_eq!(d.process(40), 10);
    assert_eq!(d.process(50), 20);
    assert_eq!(d.process(60), 30);
    assert_eq!(d.process(0), 40);
}

#[test]
fn fixed_point_ops_are_exact() {
    assert_eq!(scale(131072, 32768), 65536); // 2.0 * 0.5 == 1.0
    assert_eq!(scale_signed(100, -FRAC_ONE), -100);
    assert_eq!(lerp(0, 100, FRAC_ONE as u64 / 2), 50);
    assert_eq!(lerp(10, 10, 123), 10);
    assert_eq!(sat_add(i64::MAX, 1), i64::MAX);
    assert_eq!(sat_add(i64::MIN, -1), i64::MIN);
    assert_eq!(sat_add(2, 3), 5);
    // Truncation toward zero, as machine division does.
    assert_eq!(scale(-3, 32768), -1);
}

#[test]
fn isqrt_brackets_the_root() {
    assert_eq!(isqrt(0), 0);
    assert_eq!(isqrt(1), 1);
    assert_eq!(isqrt(3), 1);
    assert_eq!(isqrt(4), 2);
    assert_eq!(isqrt(99), 9);
    assert_eq!(isqrt(100), 10);
    assert_eq!(isqrt(u64::MAX as u128 * u64::MAX as u128), u64::MAX);
}

#[test]
fn geometric_pan_points_toward_the_ear() {
    let listener = Listener::default();
    // A source straight along the right-ear axis pans hard right (+1).
    assert_eq!(geometric_pan(&listener, Vec3I { x: 500, y: 0, z: 0 }), FRAC_ONE);
    // Straight left pans hard left (-1).
    assert_eq!(geometric_pan(&listener, Vec3I { x: -500, y: 0, z: 0 }), -FRAC_ONE);
    // Dead ahead is centred.
    assert_eq!(geometric_pan(&listener, Vec3I { x: 0, y: 0, z: 900 }), 0);
    // A coinciding position falls back to centre panning.
    assert_eq!(geometric_pan(&listener, Vec3I { x: 0, y: 0, z: 0 }), 0);
}

#[test]
fn playback_time_follows_the_position() {
    let mut s = SoundSource::default();
    assert_eq!(s.playback_time(), 0);
    s.set_buffer(Some(
        audio::buffer::Buffer::new(audio::SAMPLE_RATE, 1, vec![0; 88200]).unwrap(),
    ));
    // Half of the 2-second buffer.
    s.set_playback_time(1_000_000_000);
    assert_eq!(s.buf_read_pos, 44100 * 65536);
    assert_eq!(s.playback_time(), 1_000_000_000);
    // Times past the end clamp to the buffer's duration.
    s.set_playback_time(10_000_000_000);
    assert_eq!(s.buf_read_pos, 88200 * 65536);
}

#[test]
fn source_setters_clamp_and_store() {
    let mut s = SoundSource::default();
    s.set_pitch(-FRAC_ONE);
    assert_eq!(s.pitch, FRAC_ONE as u64);
    s.set_panning(2 * FRAC_ONE);
    assert_eq!(s.panning, FRAC_ONE);
    s.set_panning(-2 * FRAC_ONE);
    assert_eq!(s.panning, -FRAC_ONE);
    s.set_spatial_blend(-5);
    assert_eq!(s.spatial_blend, 0);
    s.set_gain(123);
    assert_eq!(s.gain, 123);
    s.set_bus(String::from("Aux"));
    assert_eq!(s.bus, "Aux");
}
