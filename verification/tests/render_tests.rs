use audio::buffer::Buffer;
use audio::bus::{Attenuate, AudioBus, Effect};
use audio::engine::SoundContext;
use audio::sample::FRAC_ONE;
use audio::source::{SoundSource, Status, StereoSample};
use audio::SAMPLE_RATE;

fn mono_buffer(samples: Vec<i64>) -> Buffer {
    Buffer::new(SAMPLE_RATE, 1, samples).unwrap()
}

fn playing_source(samples: Vec<i64>) -> SoundSource {
    let mut s = SoundSource::default();
    s.set_buffer(Some(mono_buffer(samples)));
    s.play();
    s
}

#[test]
fn fast_path_copies_mono_frames_block_by_block() {
    // A mono buffer of 4 known samples at unity pitch, rendered in two
    // blocks of 2: the blocks are the duplicated pairs in order.
    let mut s = playing_source(vec![1, 2, 3, 4]);
    s.render(2);
    assert_eq!(
        s.frame_samples().as_slice(),
        &[StereoSample { left: 1, right: 1 }, StereoSample { left: 2, right: 2 }]
    );
    s.render(2);
    assert_eq!(
        s.frame_samples().as_slice(),
        &[StereoSample { left: 3, right: 3 }, StereoSample { left: 4, right: 4 }]
    );
    // The non-looping source is exhausted and stops.
    s.render(2);
    assert_eq!(s.status, Status::Stopped);
    assert_eq!(
        s.frame_samples().as_slice(),
        &[StereoSample { left: 0, right: 0 }, StereoSample { left: 0, right: 0 }]
    );
}

#[test]
fn fast_path_reads_stereo_frames_interleaved() {
    let mut s = SoundSource::default();
    s.set_buffer(Some(Buffer::new(SAMPLE_RATE, 2, vec![1, 2, 3, 4]).unwrap()));
    s.play();
    s.render(2);
    assert_eq!(
        s.frame_samples().as_slice(),
        &[StereoSample { left: 1, right: 2 }, StereoSample { left: 3, right: 4 }]
    );
}

#[test]
fn looping_wraps_to_the_buffer_start() {
    // A 4-sample mono looping buffer rendered for 6 frames: frames 5 and
    // 6 equal the buffer's first two samples, not silence.
    let mut s = playing_source(vec![10, 20, 30, 40]);
    s.set_looping(true);
    s.render(6);
    let frames = s.frame_samples();
    assert_eq!(frames.len(), 6);
    assert_eq!(frames[4], StereoSample { left: 10, right: 10 });
    assert_eq!(frames[5], StereoSample { left: 20, right: 20 });
    assert_eq!(s.status, Status::Playing);
}

#[test]
fn non_playing_source_renders_silence() {
    let mut s = playing_source(vec![1, 2, 3, 4]);
    s.pause();
    s.render(3);
    assert_eq!(
        s.frame_samples().as_slice(),
        &[
            StereoSample { left: 0, right: 0 },
            StereoSample { left: 0, right: 0 },
            StereoSample { left: 0, right: 0 }
        ]
    );
    assert_eq!(s.status, Status::Paused);
}

#[test]
fn resampled_path_interpolates_between_neighbours() {
    // Pitch one half: positions advance by half a frame, interpolating
    // midway between neighbouring samples.
    let mut s = playing_source(vec![0, 65536, 65536, 0]);
    s.set_pitch(FRAC_ONE / 2);
    s.render(4);
    let frames = s.frame_samples();
    assert_eq!(frames[0], StereoSample { left: 0, right: 0 });
    assert_eq!(frames[1], StereoSample { left: 32768, right: 32768 });
    assert_eq!(frames[2], StereoSample { left: 65536, right: 65536 });
    assert_eq!(frames[3], StereoSample { left: 65536, right: 65536 });
}

#[test]
fn fast_path_bridges_a_negative_position_with_the_cached_frame() {
    // A transiently negative read position (as after a pitch change)
    // first re-emits the cached previous frame, then reads from the
    // buffer start.
    let mut s = playing_source(vec![10, 20, 30, 40]);
    s.prev_buffer_sample = StereoSample { left: 99, right: 99 };
    s.buf_read_pos = -(FRAC_ONE as i128);
    s.render(3);
    assert_eq!(
        s.frame_samples().as_slice(),
        &[
            StereoSample { left: 99, right: 99 },
            StereoSample { left: 10, right: 10 },
            StereoSample { left: 20, right: 20 }
        ]
    );
}

#[test]
fn resampled_path_interpolates_across_the_boundary() {
    // With a negative position the resampler interpolates between the
    // cached previous frame and the buffer's first frame, so a restart
    // has no pop.
    let mut s = playing_source(vec![65536, 65536, 65536]);
    s.set_pitch(FRAC_ONE / 2);
    s.prev_buffer_sample = StereoSample { left: 0, right: 0 };
    s.buf_read_pos = -(FRAC_ONE as i128);
    s.render(3);
    assert_eq!(
        s.frame_samples().as_slice(),
        &[
            StereoSample { left: 0, right: 0 },
            StereoSample { left: 32768, right: 32768 },
            StereoSample { left: 65536, right: 65536 }
        ]
    );
}

#[test]
fn stop_rewinds_the_positions() {
    let mut s = playing_source(vec![1, 2, 3, 4]);
    s.render(2);
    assert!(s.buf_read_pos > 0);
    s.stop();
    assert_eq!(s.status, Status::Stopped);
    assert_eq!(s.buf_read_pos, 0);
    assert_eq!(s.playback_pos, 0);
}

#[test]
fn context_mixes_a_playing_source_to_the_master_bus() {
    let mut ctx = SoundContext::new();
    let src = playing_source(vec![100, 200, 300, 400]);
    ctx.add_source(src);
    let mut out = vec![StereoSample { left: 7, right: 7 }; 4];
    ctx.render(&mut out);
    assert_eq!(
        out,
        vec![
            StereoSample { left: 100, right: 100 },
            StereoSample { left: 200, right: 200 },
            StereoSample { left: 300, right: 300 },
            StereoSample { left: 400, right: 400 },
        ]
    );
}

#[test]
fn paused_context_renders_silence() {
    let mut ctx = SoundContext::new();
    ctx.add_source(playing_source(vec![1, 2, 3, 4]));
    ctx.pause(true);
    let mut out = vec![StereoSample { left: 9, right: 9 }; 4];
    ctx.render(&mut out);
    assert_eq!(out, vec![StereoSample { left: 0, right: 0 }; 4]);
}

#[test]
fn missing_bus_renders_silence() {
    // A playing source routed to a bus name absent from the graph
    // contributes nothing: the output block is all zeros, with no panic.
    let mut ctx = SoundContext::new();
    let mut src = playing_source(vec![500, 600, 700, 800]);
    src.set_bus(String::from("Elsewhere"));
    ctx.add_source(src);
    let mut out = vec![StereoSample { left: 1, right: 1 }; 4];
    ctx.render(&mut out);
    assert_eq!(out, vec![StereoSample { left: 0, right: 0 }; 4]);
}

#[test]
fn gain_change_ramps_down_without_a_jump() {
    // After a gain change from 1.0 to 0.0 the block is mixed with a gain
    // ramp: the output magnitude decreases monotonically instead of
    // jumping to zero on the first frame.
    let mut ctx = SoundContext::new();
    let mut src = playing_source(vec![65536; 64]);
    src.set_looping(true);
    let h = ctx.add_source(src);
    let mut out = vec![StereoSample { left: 0, right: 0 }; 8];
    ctx.render(&mut out);
    assert_eq!(out[0], StereoSample { left: 65536, right: 65536 });
    ctx.source_mut(h).set_gain(0);
    ctx.render(&mut out);
    // Starts at the old gain, not at zero.
    assert_eq!(out[0], StereoSample { left: 65536, right: 65536 });
    for k in 1..8 {
        assert!(out[k].left < out[k - 1].left);
        assert!(out[k].right < out[k - 1].right);
        assert!(out[k].left >= 0);
    }
    // Once the gain is steady, the block is scaled by it outright.
    ctx.render(&mut out);
    assert_eq!(out, vec![StereoSample { left: 0, right: 0 }; 8]);
}

#[test]
fn play_once_source_is_removed_after_stopping() {
    let mut ctx = SoundContext::new();
    let mut src = playing_source(vec![1, 2]);
    src.set_play_once(true);
    let h = ctx.add_source(src);
    let mut out = vec![StereoSample { left: 0, right: 0 }; 4];
    // First pass renders the two frames and exhausts the source.
    ctx.render(&mut out);
    assert!(ctx.is_valid_handle(h));
    assert_eq!(ctx.source(h).status, Status::Stopped);
    // The next pass purges it.
    ctx.render(&mut out);
    assert!(!ctx.is_valid_handle(h));
}

#[test]
fn end_to_end_attenuated_bus_chain() {
    // One buffer of known values, one looping source routed through a bus
    // holding a single 0.5-gain attenuation effect: the output equals the
    // passthrough frames at half amplitude, for several blocks.
    let mut ctx = SoundContext::new();
    {
        let graph = ctx.bus_graph_mut();
        let master = graph.primary_bus_handle();
        let mut effects_bus = AudioBus::new(String::from("Effects"));
        effects_bus.add_effect(Effect::Attenuate(Attenuate::new(FRAC_ONE / 2)));
        graph.add_bus(effects_bus, master).unwrap();
    }
    let mut src = playing_source(vec![2000, 4000, 6000, 8000]);
    src.set_looping(true);
    src.set_bus(String::from("Effects"));
    ctx.add_source(src);
    let mut out = vec![StereoSample { left: 0, right: 0 }; 4];
    ctx.render(&mut out);
    assert_eq!(
        out,
        vec![
            StereoSample { left: 1000, right: 1000 },
            StereoSample { left: 2000, right: 2000 },
            StereoSample { left: 3000, right: 3000 },
            StereoSample { left: 4000, right: 4000 },
        ]
    );
    // The loop continues seamlessly in the next block.
    ctx.render(&mut out);
    assert_eq!(
        out,
        vec![
            StereoSample { left: 1000, right: 1000 },
            StereoSample { left: 2000, right: 2000 },
            StereoSample { left: 3000, right: 3000 },
            StereoSample { left: 4000, right: 4000 },
        ]
    );
}

#[test]
fn remove_source_invalidates_its_handle() {
    let mut ctx = SoundContext::new();
    let h = ctx.add_source(SoundSource::default());
    assert!(ctx.is_valid_handle(h));
    let taken = ctx.remove_source(h);
    assert!(taken.is_some());
    assert!(!ctx.is_valid_handle(h));
    assert!(ctx.remove_source(h).is_none());
}
