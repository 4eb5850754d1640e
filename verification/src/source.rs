//! A per-voice playback cursor, resampler and gain-ramp state.
//!
//! A `SoundSource` owns an optional shared `Buffer`, a fractional read
//! position into it, a pitch, gains, and a playback status. `render` fills
//! the per-block scratch `frame_samples` with exactly the requested number
//! of stereo frames, looping or stopping at the buffer's end.
//!
//! Positions are fixed-point (Q16.16) like everything else in this crate:
//! one frame is `FRAC_ONE` position units.

use vstd::prelude::*;

use crate::buffer::{abs_val, Buffer};
use crate::sample::FRAC_ONE;

verus! {

/// One stereo frame: a left and a right fixed-point sample.
#[derive(Clone, Copy, PartialEq, Eq, Structural, Debug)]
pub struct StereoSample {
    pub left: i64,
    pub right: i64,
}

/// A point or direction in world space, in fixed-point coordinates.
#[derive(Clone, Copy, PartialEq, Eq, Structural, Debug)]
pub struct Vec3I {
    pub x: i64,
    pub y: i64,
    pub z: i64,
}

/// Status (state) of a sound source: `Stopped` (the default; produces no
/// samples), `Playing` (produces samples), or `Paused` (position frozen,
/// resumes into `Playing`).
#[derive(Clone, Copy, PartialEq, Eq, Structural, Debug)]
pub enum Status {
    Stopped,
    Playing,
    Paused,
}

/// A sound source: playback cursor, resampler state and mixing parameters.
///
/// The render path reads any field combination defensively, but the
/// contracts of the render entry points assume `wf`: an attached buffer is
/// well formed, and panning and spatial blend lie in their nominal ranges.
pub struct SoundSource {
    pub name: String,
    /// The samples this source plays, if any are attached.
    pub buffer: Option<Buffer>,
    /// Read position in the buffer, in Q16.16 frames. Transiently negative
    /// after a pitch change while bridging from `prev_buffer_sample`.
    pub buf_read_pos: i128,
    /// Total playback position, in Q16.16 frames.
    pub playback_pos: i128,
    /// Playback speed multiplier (magnitude only), Q16.16.
    pub pitch: u64,
    /// Volume, Q16.16; 65536 is unity. Values above unity overdrive.
    pub gain: i64,
    pub looping: bool,
    /// Blend between the authored `panning` and the geometry-derived
    /// panning, Q16.16 in [0, FRAC_ONE].
    pub spatial_blend: i64,
    /// Authored stereo panning, Q16.16 in [-FRAC_ONE, FRAC_ONE].
    pub panning: i64,
    /// Corrects the buffer's native rate against the output rate, Q16.16.
    pub resampling_multiplier: u64,
    pub status: Status,
    /// Name of the target mix bus.
    pub bus: String,
    /// Remove the source from its pool once it naturally stops.
    pub play_once: bool,
    /// Channel gains applied in the previous block; `None` until the first
    /// render, so the mixer can seed them without an audible pop.
    pub last_left_gain: Option<i64>,
    pub last_right_gain: Option<i64>,
    /// Per-block scratch output, reused across calls.
    pub frame_samples: Vec<StereoSample>,
    /// The last frame emitted before a boundary, used to interpolate across
    /// it without a pop.
    pub prev_buffer_sample: StereoSample,
    /// Reserved spatial-attenuation fields; not read by the mix path.
    pub radius: i64,
    pub position: Vec3I,
    pub max_distance: i64,
    pub rolloff_factor: i64,
}

impl SoundSource {
    /// What the render contracts assume of a source.
    pub open spec fn wf(&self) -> bool {
        &&& (self.buffer matches Some(b) ==> b.wf())
        &&& -(FRAC_ONE as int) <= self.panning <= FRAC_ONE as int
        &&& 0 <= self.spatial_blend <= FRAC_ONE as int
    }

    /// Sets the volume. The value is not clamped: values above unity
    /// overdrive the sound.
    pub fn set_gain(&mut self, gain: i64)
        ensures
            *final(self) == (SoundSource { gain, ..*old(self) }),
    {
        self.gain = gain;
    }

    /// Sets the playback speed; only the magnitude is kept.
    pub fn set_pitch(&mut self, pitch: i64)
        ensures
            *final(self) == (SoundSource {
                pitch: abs_val(pitch as int) as u64,
                ..*old(self)
            }),
    {
        let magnitude: u64 = if pitch < 0 {
            (-(pitch as i128)) as u64
        } else {
            pitch as u64
        };
        self.pitch = magnitude;
    }

    /// Sets the authored stereo panning, clamped into
    /// [-FRAC_ONE, FRAC_ONE].
    pub fn set_panning(&mut self, panning: i64)
        ensures
            *final(self) == (SoundSource {
                panning: if panning < -(FRAC_ONE as int) {
                    (-(FRAC_ONE as int)) as i64
                } else if panning > FRAC_ONE as int {
                    FRAC_ONE
                } else {
                    panning
                },
                ..*old(self)
            }),
    {
        self.panning = if panning < -FRAC_ONE {
            -FRAC_ONE
        } else if panning > FRAC_ONE {
            FRAC_ONE
        } else {
            panning
        };
    }

    /// Sets the spatial blend factor, clamped into [0, FRAC_ONE].
    pub fn set_spatial_blend(&mut self, spatial_blend: i64)
        ensures
            *final(self) == (SoundSource {
                spatial_blend: if spatial_blend < 0 {
                    0
                } else if spatial_blend > FRAC_ONE as int {
                    FRAC_ONE
                } else {
                    spatial_blend
                },
                ..*old(self)
            }),
    {
        self.spatial_blend = if spatial_blend < 0 {
            0
        } else if spatial_blend > FRAC_ONE {
            FRAC_ONE
        } else {
            spatial_blend
        };
    }

    /// Starts playback.
    pub fn play(&mut self)
        ensures
            *final(self) == (SoundSource { status: Status::Playing, ..*old(self) }),
    {
        self.status = Status::Playing;
    }

    /// Freezes playback at the current position.
    pub fn pause(&mut self)
        ensures
            *final(self) == (SoundSource { status: Status::Paused, ..*old(self) }),
    {
        self.status = Status::Paused;
    }

    /// Stops the source and rewinds both positions to the start.
    pub fn stop(&mut self)
        ensures
            *final(self) == (SoundSource {
                status: Status::Stopped,
                buf_read_pos: 0,
                playback_pos: 0,
                ..*old(self)
            }),
    {
        self.status = Status::Stopped;
        self.buf_read_pos = 0;
        self.playback_pos = 0;
    }

    /// Turns looping on or off.
    pub fn set_looping(&mut self, looping: bool)
        ensures
            *final(self) == (SoundSource { looping, ..*old(self) }),
    {
        self.looping = looping;
    }

    /// Marks the source for automatic removal once it naturally stops.
    pub fn set_play_once(&mut self, play_once: bool)
        ensures
            *final(self) == (SoundSource { play_once, ..*old(self) }),
    {
        self.play_once = play_once;
    }

    /// Sets the name of the target audio bus. If no bus of this name exists
    /// in the graph the source contributes nothing to a block.
    pub fn set_bus(&mut self, bus: String)
        ensures
            *final(self) == (SoundSource { bus, ..*old(self) }),
    {
        self.bus = bus;
    }

    /// Attaches a buffer and derives the resampling multiplier that
    /// corrects the buffer's native rate against the output rate (unity
    /// when the rates match or the buffer's rate is zero).
    pub fn set_buffer(&mut self, buffer: Option<Buffer>)
        requires
            buffer matches Some(b) ==> b.wf(),
        ensures
            *final(self) == (SoundSource {
                buffer,
                resampling_multiplier: match buffer {
                    Some(b) => if b.spec_rate() == 0 {
                        FRAC_ONE as u64
                    } else {
                        ((b.spec_rate() as int * FRAC_ONE as int) / (crate::SAMPLE_RATE as int)) as u64
                    },
                    None => FRAC_ONE as u64,
                },
                ..*old(self)
            }),
    {
        let multiplier: u64 = match &buffer {
            Some(b) => {
                let rate = b.sample_rate();
                if rate == 0 {
                    FRAC_ONE as u64
                } else {
                    ((rate as u64) * (FRAC_ONE as u64)) / (crate::SAMPLE_RATE as u64)
                }
            },
            None => FRAC_ONE as u64,
        };
        self.buffer = buffer;
        self.resampling_multiplier = multiplier;
    }

    /// Sets the source's position in world space.
    pub fn set_position(&mut self, position: Vec3I)
        ensures
            *final(self) == (SoundSource { position, ..*old(self) }),
    {
        self.position = position;
    }

    /// Sets the no-attenuation radius (reserved; not read by the mix path).
    pub fn set_radius(&mut self, radius: i64)
        ensures
            *final(self) == (SoundSource { radius, ..*old(self) }),
    {
        self.radius = radius;
    }

    /// Sets the rolloff factor (reserved; not read by the mix path).
    pub fn set_rolloff_factor(&mut self, rolloff_factor: i64)
        ensures
            *final(self) == (SoundSource { rolloff_factor, ..*old(self) }),
    {
        self.rolloff_factor = rolloff_factor;
    }

    /// Sets the maximum attenuation distance (reserved; not read by the
    /// mix path).
    pub fn set_max_distance(&mut self, max_distance: i64)
        ensures
            *final(self) == (SoundSource { max_distance, ..*old(self) }),
    {
        self.max_distance = max_distance;
    }

    /// Playback position expressed as elapsed output time, in
    /// nanoseconds, saturated into `u64`. A source without a buffer
    /// reports zero.
    pub fn playback_time(&self) -> (nanos: u64)
        ensures
            self.buffer is None ==> nanos == 0,
            self.buffer is Some ==> nanos as int == playback_nanos_spec(self.playback_pos as int),
    {
        match &self.buffer {
            None => 0,
            Some(_) => {
                let pos = self.playback_pos;
                if pos <= 0 {
                    return 0;
                }
                if pos >= 1237940039285380274899124224i128 {
                    proof {
                        vstd::arithmetic::div_mod::lemma_div_is_ordered(
                            1237940039285380274899124224int * 1_000_000_000,
                            pos as int * 1_000_000_000,
                            2890137600,
                        );
                        assert(1237940039285380274899124224int * 1_000_000_000 <= pos as int
                            * 1_000_000_000) by (nonlinear_arith)
                            requires
                                pos as int >= 1237940039285380274899124224,
                        ;
                    }
                    return u64::MAX;
                }
                let wide: u128 = (pos as u128) * 1_000_000_000u128 / 2_890_137_600u128;
                if wide > u64::MAX as u128 {
                    u64::MAX
                } else {
                    wide as u64
                }
            },
        }
    }

    /// Jumps playback to the given elapsed time: the corresponding
    /// position, clamped to the buffer's length, becomes both the read
    /// and the playback position. Without a buffer nothing changes.
    pub fn set_playback_time(&mut self, nanos: u64)
        requires
            old(self).wf(),
        ensures
            old(self).buffer is None ==> *final(self) == *old(self),
            old(self).buffer matches Some(b) ==> *final(self) == (SoundSource {
                buf_read_pos: playback_pos_of_nanos(nanos as int, b.spec_frames()) as i128,
                playback_pos: playback_pos_of_nanos(nanos as int, b.spec_frames()) as i128,
                ..*old(self)
            }),
    {
        let frames: usize = match &self.buffer {
            Some(b) => b.channel_duration_in_samples(),
            None => {
                return ;
            },
        };
        let raw: u128 = (nanos as u128) * 2_890_137_600u128 / 1_000_000_000u128;
        let limit: u128 = (frames as u128) * (FRAC_ONE as u128);
        let pos: u128 = if raw > limit {
            limit
        } else {
            raw
        };
        self.buf_read_pos = pos as i128;
        self.playback_pos = pos as i128;
    }

    /// The scratch frames the last `render` produced.
    pub fn frame_samples(&self) -> (r: &Vec<StereoSample>)
        ensures
            r == &self.frame_samples,
    {
        &self.frame_samples
    }
}

/// A Q16.16 playback position expressed as elapsed output time at the
/// device rate, in nanoseconds, saturated into `u64`.
pub open spec fn playback_nanos_spec(pos: int) -> int {
    if pos <= 0 {
        0
    } else {
        crate::sample::sat_u64_spec(pos * 1_000_000_000 / 2890137600)
    }
}

/// The Q16.16 position reached after `nanos` nanoseconds at the device
/// rate, clamped to the end of a buffer of `frames` frames.
pub open spec fn playback_pos_of_nanos(nanos: int, frames: int) -> int {
    let p = nanos * 2890137600 / 1_000_000_000;
    if p > frames * (FRAC_ONE as int) {
        frames * (FRAC_ONE as int)
    } else {
        p
    }
}

/// Number of whole frames in an interleaved sample sequence.
pub open spec fn frames_in(samples_len: int, cc: int) -> int {
    samples_len / cc
}

/// The `i`-th stereo frame of an interleaved sample sequence: a mono
/// source is duplicated to both channels, a stereo source is read as
/// interleaved pairs.
pub open spec fn frame_at(samples: Seq<i64>, cc: int, i: int) -> StereoSample {
    if cc == 2 {
        StereoSample { left: samples[2 * i], right: samples[2 * i + 1] }
    } else {
        StereoSample { left: samples[i], right: samples[i] }
    }
}

/// The per-frame position step: pitch times the resampling multiplier,
/// in Q16.16.
pub open spec fn step_of(pitch: u64, multiplier: u64) -> int {
    (pitch as int * multiplier as int) / (FRAC_ONE as int)
}

/// Saturation of a position into the `i128` range.
pub open spec fn sat_pos(x: int) -> int {
    if x > i128::MAX as int {
        i128::MAX as int
    } else if x < i128::MIN as int {
        i128::MIN as int
    } else {
        x
    }
}

/// `n` frames of silence.
pub open spec fn zero_frames(n: nat) -> Seq<StereoSample> {
    Seq::new(n, |i: int| StereoSample { left: 0, right: 0 })
}

/// Both channels interpolated from `a` to `b` with weight `w`.
pub open spec fn lerp_frame(a: StereoSample, b: StereoSample, w: int) -> StereoSample {
    StereoSample {
        left: crate::sample::sat64(crate::sample::lerp_spec(a.left as int, b.left as int, w)) as i64,
        right: crate::sample::sat64(
            crate::sample::lerp_spec(a.right as int, b.right as int, w),
        ) as i64,
    }
}

/// What one render pass leaves behind: the frames it emitted, the two
/// final positions, and whether the source is still playing.
pub struct RenderOutcome {
    pub frames: Seq<StereoSample>,
    pub buf_pos: int,
    pub play_pos: int,
    pub playing: bool,
}

/// A read position from which the current pass through the buffer cannot
/// emit another frame. The resampled path stops one frame early so that
/// both interpolation endpoints stay in range.
pub open spec fn at_block_end(flen: int, step: int, p: int) -> bool {
    if step == FRAC_ONE as int {
        p >= 0 && p / (FRAC_ONE as int) >= flen
    } else {
        p >= 0 && p / (FRAC_ONE as int) >= flen - 1
    }
}

/// The exact result of rendering `n` frames from interleaved `samples`
/// with `cc` channels, starting at read position `p` and playback position
/// `q` (both Q16.16), advancing by `step` per output frame.
///
/// With `step == FRAC_ONE` frames are copied one for one (the fast path);
/// a transient negative position first re-emits `prev`. Otherwise each
/// output frame is interpolated linearly between its two neighbouring
/// buffer frames, and a negative position bridges from `prev` into the
/// buffer's first frame. At the buffer's end a looping source rewinds to
/// the start and goes on; a non-looping source rewinds, stops, and the
/// rest of the block is silence. A looping source that cannot advance (a
/// resampled buffer with fewer than two frames) pads with silence but
/// keeps playing.
pub open spec fn render_frames_spec(
    samples: Seq<i64>,
    cc: int,
    step: int,
    looping: bool,
    prev: StereoSample,
    p: int,
    q: int,
    n: nat,
) -> RenderOutcome
    decreases n, (if at_block_end(frames_in(samples.len() as int, cc), step, p) {
        1int
    } else {
        0int
    }),
{
    let flen = frames_in(samples.len() as int, cc);
    if n == 0 {
        RenderOutcome { frames: Seq::empty(), buf_pos: p, play_pos: q, playing: true }
    } else if step == FRAC_ONE as int {
        if p < 0 {
            let rest = render_frames_spec(samples, cc, step, looping, prev, 0, q, (n - 1) as nat);
            RenderOutcome { frames: seq![prev] + rest.frames, ..rest }
        } else if p / (FRAC_ONE as int) < flen {
            let rest = render_frames_spec(
                samples,
                cc,
                step,
                looping,
                prev,
                p + FRAC_ONE as int,
                sat_pos(q + FRAC_ONE as int),
                (n - 1) as nat,
            );
            RenderOutcome {
                frames: seq![frame_at(samples, cc, p / (FRAC_ONE as int))] + rest.frames,
                ..rest
            }
        } else if looping && flen > 0 {
            render_frames_spec(samples, cc, step, looping, prev, 0, 0, n)
        } else {
            RenderOutcome { frames: zero_frames(n), buf_pos: 0, play_pos: 0, playing: false }
        }
    } else {
        if p < 0 {
            let rest = render_frames_spec(
                samples,
                cc,
                step,
                looping,
                prev,
                p + step,
                sat_pos(q + step),
                (n - 1) as nat,
            );
            RenderOutcome {
                frames: seq![
                    lerp_frame(prev, frame_at(samples, cc, 0), p % (FRAC_ONE as int)),
                ] + rest.frames,
                ..rest
            }
        } else if p / (FRAC_ONE as int) < flen - 1 {
            let f = p / (FRAC_ONE as int);
            let rest = render_frames_spec(
                samples,
                cc,
                step,
                looping,
                prev,
                p + step,
                sat_pos(q + step),
                (n - 1) as nat,
            );
            RenderOutcome {
                frames: seq![
                    lerp_frame(
                        frame_at(samples, cc, f),
                        frame_at(samples, cc, f + 1),
                        p % (FRAC_ONE as int),
                    ),
                ] + rest.frames,
                ..rest
            }
        } else if looping && flen >= 2 {
            render_frames_spec(samples, cc, step, looping, prev, 0, 0, n)
        } else if looping {
            RenderOutcome { frames: zero_frames(n), buf_pos: 0, play_pos: 0, playing: true }
        } else {
            RenderOutcome { frames: zero_frames(n), buf_pos: 0, play_pos: 0, playing: false }
        }
    }
}

/// A render pass emits exactly as many frames as were asked for.
pub proof fn lemma_render_frames_len(
    samples: Seq<i64>,
    cc: int,
    step: int,
    looping: bool,
    prev: StereoSample,
    p: int,
    q: int,
    n: nat,
)
    ensures
        render_frames_spec(samples, cc, step, looping, prev, p, q, n).frames.len() == n,
    decreases n, (if at_block_end(frames_in(samples.len() as int, cc), step, p) {
        1int
    } else {
        0int
    }),
{
    let flen = frames_in(samples.len() as int, cc);
    if n == 0 {
    } else if step == FRAC_ONE as int {
        if p < 0 {
            lemma_render_frames_len(samples, cc, step, looping, prev, 0, q, (n - 1) as nat);
        } else if p / (FRAC_ONE as int) < flen {
            lemma_render_frames_len(
                samples,
                cc,
                step,
                looping,
                prev,
                p + FRAC_ONE as int,
                sat_pos(q + FRAC_ONE as int),
                (n - 1) as nat,
            );
        } else if looping && flen > 0 {
            lemma_render_frames_len(samples, cc, step, looping, prev, 0, 0, n);
        } else {
        }
    } else {
        if p < 0 {
            lemma_render_frames_len(
                samples,
                cc,
                step,
                looping,
                prev,
                p + step,
                sat_pos(q + step),
                (n - 1) as nat,
            );
        } else if p / (FRAC_ONE as int) < flen - 1 {
            lemma_render_frames_len(
                samples,
                cc,
                step,
                looping,
                prev,
                p + step,
                sat_pos(q + step),
                (n - 1) as nat,
            );
        } else if looping && flen >= 2 {
            lemma_render_frames_len(samples, cc, step, looping, prev, 0, 0, n);
        } else {
        }
    }
}

/// A looping pass never stops the source: every path through the
/// renderer either emits, rewinds to the start and goes on, or pads with
/// silence while staying playable. Only a non-looping source can run out.
pub proof fn lemma_looping_pass_keeps_playing(
    samples: Seq<i64>,
    cc: int,
    step: int,
    prev: StereoSample,
    p: int,
    q: int,
    n: nat,
)
    requires
        frames_in(samples.len() as int, cc) > 0,
    ensures
        render_frames_spec(samples, cc, step, true, prev, p, q, n).playing,
    decreases n, (if at_block_end(frames_in(samples.len() as int, cc), step, p) {
        1int
    } else {
        0int
    }),
{
    let flen = frames_in(samples.len() as int, cc);
    if n == 0 {
    } else if step == FRAC_ONE as int {
        if p < 0 {
            lemma_looping_pass_keeps_playing(samples, cc, step, prev, 0, q, (n - 1) as nat);
        } else if p / (FRAC_ONE as int) < flen {
            lemma_looping_pass_keeps_playing(
                samples,
                cc,
                step,
                prev,
                p + FRAC_ONE as int,
                sat_pos(q + FRAC_ONE as int),
                (n - 1) as nat,
            );
        } else {
            lemma_looping_pass_keeps_playing(samples, cc, step, prev, 0, 0, n);
        }
    } else {
        if p < 0 {
            lemma_looping_pass_keeps_playing(
                samples,
                cc,
                step,
                prev,
                p + step,
                sat_pos(q + step),
                (n - 1) as nat,
            );
        } else if p / (FRAC_ONE as int) < flen - 1 {
            lemma_looping_pass_keeps_playing(
                samples,
                cc,
                step,
                prev,
                p + step,
                sat_pos(q + step),
                (n - 1) as nat,
            );
        } else if flen >= 2 {
            lemma_looping_pass_keeps_playing(samples, cc, step, prev, 0, 0, n);
        } else {
        }
    }
}

/// A looping source keeps its status through any render pass; the
/// automatic return to `Stopped` happens only when a non-looping buffer
/// is exhausted.
pub proof fn lemma_looping_source_keeps_playing(s: SoundSource, n: nat)
    requires
        s.wf(),
        s.looping,
    ensures
        render_result(s, n).playing,
{
    match s.buffer {
        Some(b) => {
            if s.status is Playing && b.spec_samples().len() > 0 {
                crate::buffer::lemma_buffer_frames(&b);
                lemma_looping_pass_keeps_playing(
                    b.spec_samples(),
                    b.spec_channels(),
                    step_of(s.pitch, s.resampling_multiplier),
                    s.prev_buffer_sample,
                    s.buf_read_pos as int,
                    s.playback_pos as int,
                    n,
                );
            }
        },
        None => {},
    }
}

/// The full outcome `render` leaves on a source: silence when the source
/// is not playing or has no samples, the rendered frames otherwise.
pub open spec fn render_result(s: SoundSource, amount: nat) -> RenderOutcome {
    match s.buffer {
        Some(b) => if s.status is Playing && b.spec_samples().len() > 0 {
            render_frames_spec(
                b.spec_samples(),
                b.spec_channels(),
                step_of(s.pitch, s.resampling_multiplier),
                s.looping,
                s.prev_buffer_sample,
                s.buf_read_pos as int,
                s.playback_pos as int,
                amount,
            )
        } else {
            RenderOutcome {
                frames: zero_frames(amount),
                buf_pos: s.buf_read_pos as int,
                play_pos: s.playback_pos as int,
                playing: true,
            }
        },
        None => RenderOutcome {
            frames: zero_frames(amount),
            buf_pos: s.buf_read_pos as int,
            play_pos: s.playback_pos as int,
            playing: true,
        },
    }
}

/// `full` is what remains of a pass after `emitted` frames: the rest of
/// its frames and its final state are those of `rem`.
pub open spec fn outcome_continues(
    full: RenderOutcome,
    emitted: Seq<StereoSample>,
    rem: RenderOutcome,
) -> bool {
    &&& full.frames == emitted + rem.frames
    &&& full.buf_pos == rem.buf_pos
    &&& full.play_pos == rem.play_pos
    &&& full.playing == rem.playing
}

/// Adds a step to a playback position, saturating at the `i128` range.
fn advance_pos(q: i128, d: u128) -> (r: i128)
    requires
        d <= i128::MAX as u128,
    ensures
        r as int == sat_pos(q as int + d as int),
{
    if q >= 0 {
        if (d as i128) > i128::MAX - q {
            i128::MAX
        } else {
            q + (d as i128)
        }
    } else {
        q + (d as i128)
    }
}

/// The fractional part of a Q16.16 position, as a Euclidean remainder
/// in [0, FRAC_ONE).
fn frac_of(p: i128) -> (w: u64)
    ensures
        w as int == (p as int) % (FRAC_ONE as int),
        w < FRAC_ONE as u64,
{
    if p >= 0 {
        (p % (FRAC_ONE as i128)) as u64
    } else if p == i128::MIN {
        proof {
            vstd::arithmetic::div_mod::lemma_fundamental_div_mod_converse(
                p as int,
                FRAC_ONE as int,
                -2596148429267413814265248164610048,
                0,
            );
        }
        0u64
    } else {
        let neg = -p;
        let m = neg % (FRAC_ONE as i128);
        proof {
            vstd::arithmetic::div_mod::lemma_fundamental_div_mod(neg as int, FRAC_ONE as int);
            let k = (neg as int) / (FRAC_ONE as int);
            if m == 0 {
                vstd::arithmetic::div_mod::lemma_fundamental_div_mod_converse(
                    p as int,
                    FRAC_ONE as int,
                    -k,
                    0,
                );
            } else {
                vstd::arithmetic::div_mod::lemma_fundamental_div_mod_converse(
                    p as int,
                    FRAC_ONE as int,
                    -k - 1,
                    FRAC_ONE as int - m,
                );
            }
        }
        if m == 0 {
            0u64
        } else {
            (FRAC_ONE as i128 - m) as u64
        }
    }
}

/// Reads one frame of a well-formed buffer.
fn read_frame(b: &Buffer, i: usize) -> (r: StereoSample)
    requires
        b.wf(),
        b.spec_samples().len() > 0,
        (i as int) < b.spec_frames(),
    ensures
        r == frame_at(b.spec_samples(), b.spec_channels(), i as int),
{
    let samples = b.samples();
    let n = samples.len();
    if b.channel_count() == 2 {
        proof {
            crate::buffer::lemma_buffer_frames(b);
            assert(2 * (i as int) + 1 < n);
        }
        StereoSample { left: samples[2 * i], right: samples[2 * i + 1] }
    } else {
        StereoSample { left: samples[i], right: samples[i] }
    }
}

impl SoundSource {
    /// Fills the scratch `frame_samples` with exactly `amount` frames: the
    /// rendered outcome of the source's state, padded with silence for
    /// whatever was not played. A source that is not `Playing`, or has no
    /// samples, yields a silent block and is otherwise untouched; a
    /// playing source advances its positions and stops when a non-looping
    /// buffer runs out.
    pub fn render(&mut self, amount: usize)
        requires
            old(self).wf(),
        ensures
            final(self).wf(),
            final(self).frame_samples@.len() == amount,
            final(self).frame_samples@ == render_result(*old(self), amount as nat).frames,
            final(self).buf_read_pos as int == render_result(*old(self), amount as nat).buf_pos,
            final(self).playback_pos as int == render_result(*old(self), amount as nat).play_pos,
            final(self).status == (if render_result(*old(self), amount as nat).playing {
                old(self).status
            } else {
                Status::Stopped
            }),
            *final(self) == (SoundSource {
                frame_samples: final(self).frame_samples,
                buf_read_pos: final(self).buf_read_pos,
                playback_pos: final(self).playback_pos,
                status: final(self).status,
                ..*old(self)
            }),
    {
        self.frame_samples.clear();
        let buffer = self.buffer.take();
        match &buffer {
            Some(b) => {
                let playing = match self.status {
                    Status::Playing => true,
                    _ => false,
                };
                if playing && b.samples().len() > 0 {
                    self.render_playing(b, amount);
                }
            },
            None => {},
        }
        self.buffer = buffer;
        let ghost mid = *self;
        let ghost emitted = self.frame_samples@;
        proof {
            assert(emitted.len() <= amount);
            assert(self.frame_samples@ =~= emitted + zero_frames(0));
        }
        let zero = StereoSample { left: 0, right: 0 };
        while self.frame_samples.len() < amount
            invariant
                emitted.len() <= amount,
                emitted.len() <= self.frame_samples@.len() <= amount,
                self.frame_samples@ == emitted + zero_frames(
                    (self.frame_samples@.len() - emitted.len()) as nat,
                ),
                zero == (StereoSample { left: 0, right: 0 }),
                *self == (SoundSource { frame_samples: self.frame_samples, ..mid }),
            decreases amount - self.frame_samples@.len(),
        {
            let ghost pre = self.frame_samples@;
            self.frame_samples.push(zero);
            proof {
                let k = (self.frame_samples@.len() - emitted.len()) as nat;
                let k0 = (pre.len() - emitted.len()) as nat;
                assert(self.frame_samples@ == pre.push(zero));
                assert(pre == emitted + zero_frames(k0));
                assert(zero_frames(k) =~= zero_frames(k0).push(zero));
                assert(emitted + zero_frames(k0).push(zero) =~= (emitted + zero_frames(k0)).push(
                    zero,
                ));
                assert(self.frame_samples@ == emitted + zero_frames(k));
            }
        }
        proof {
            let full = render_result(*old(self), amount as nat);
            match old(self).buffer {
                Some(b) => {
                    if old(self).status is Playing && b.spec_samples().len() > 0 {
                        lemma_render_frames_len(
                            b.spec_samples(),
                            b.spec_channels(),
                            step_of(old(self).pitch, old(self).resampling_multiplier),
                            old(self).looping,
                            old(self).prev_buffer_sample,
                            old(self).buf_read_pos as int,
                            old(self).playback_pos as int,
                            amount as nat,
                        );
                        assert(self.frame_samples@ =~= full.frames);
                    } else {
                        assert(self.frame_samples@ =~= full.frames);
                    }
                },
                None => {
                    assert(self.frame_samples@ =~= full.frames);
                },
            }
        }
    }

    /// Renders a playing source block by block until `amount` frames are
    /// written or the buffer runs out without looping.
    fn render_playing(&mut self, b: &Buffer, amount: usize)
        requires
            old(self).wf(),
            b.wf(),
            b.spec_samples().len() > 0,
            old(self).status is Playing,
            old(self).frame_samples@.len() == 0,
        ensures
            final(self).frame_samples@.len() <= amount,
            ({
                let full = render_frames_spec(
                    b.spec_samples(),
                    b.spec_channels(),
                    step_of(old(self).pitch, old(self).resampling_multiplier),
                    old(self).looping,
                    old(self).prev_buffer_sample,
                    old(self).buf_read_pos as int,
                    old(self).playback_pos as int,
                    amount as nat,
                );
                &&& full.frames == final(self).frame_samples@ + zero_frames(
                    (amount - final(self).frame_samples@.len()) as nat,
                )
                &&& final(self).buf_read_pos as int == full.buf_pos
                &&& final(self).playback_pos as int == full.play_pos
                &&& final(self).status == (if full.playing {
                    Status::Playing
                } else {
                    Status::Stopped
                })
            }),
            *final(self) == (SoundSource {
                frame_samples: final(self).frame_samples,
                buf_read_pos: final(self).buf_read_pos,
                playback_pos: final(self).playback_pos,
                status: final(self).status,
                ..*old(self)
            }),
    {
        let ghost step_g = step_of(old(self).pitch, old(self).resampling_multiplier);
        let ghost full = render_frames_spec(
            b.spec_samples(),
            b.spec_channels(),
            step_g,
            old(self).looping,
            old(self).prev_buffer_sample,
            old(self).buf_read_pos as int,
            old(self).playback_pos as int,
            amount as nat,
        );
        let mut count: usize = 0;
        let cc = b.channel_count();
        let flen = b.channel_duration_in_samples();
        loop
            invariant
                old(self).wf(),
                b.wf(),
                b.spec_samples().len() > 0,
                cc as int == b.spec_channels(),
                flen as int == b.spec_frames(),
                flen >= 1,
                count <= amount,
                count == self.frame_samples@.len(),
                self.status is Playing,
                self.pitch == old(self).pitch,
                self.resampling_multiplier == old(self).resampling_multiplier,
                self.looping == old(self).looping,
                self.prev_buffer_sample == old(self).prev_buffer_sample,
                step_g == step_of(self.pitch, self.resampling_multiplier),
                full == render_frames_spec(
                    b.spec_samples(),
                    b.spec_channels(),
                    step_g,
                    old(self).looping,
                    old(self).prev_buffer_sample,
                    old(self).buf_read_pos as int,
                    old(self).playback_pos as int,
                    amount as nat,
                ),
                outcome_continues(
                    full,
                    self.frame_samples@,
                    render_frames_spec(
                        b.spec_samples(),
                        b.spec_channels(),
                        step_g,
                        self.looping,
                        self.prev_buffer_sample,
                        self.buf_read_pos as int,
                        self.playback_pos as int,
                        (amount - count) as nat,
                    ),
                ),
                *self == (SoundSource {
                    frame_samples: self.frame_samples,
                    buf_read_pos: self.buf_read_pos,
                    playback_pos: self.playback_pos,
                    ..*old(self)
                }),
            decreases amount - count, (if at_block_end(
                b.spec_frames(),
                step_g,
                self.buf_read_pos as int,
            ) {
                1int
            } else {
                0int
            }),
        {
            let ghost e0 = self.frame_samples@;
            let ghost st0 = *self;
            let ghost m0 = (amount - count) as nat;
            let rendered = self.render_until_block_end(b, amount - count);
            proof {
                let delta = self.frame_samples@.skip(e0.len() as int);
                let rem_b = render_frames_spec(
                    b.spec_samples(),
                    b.spec_channels(),
                    step_g,
                    self.looping,
                    self.prev_buffer_sample,
                    self.buf_read_pos as int,
                    self.playback_pos as int,
                    (m0 - rendered) as nat,
                );
                assert(self.frame_samples@ =~= e0 + delta);
                assert(full.frames =~= self.frame_samples@ + rem_b.frames);
            }
            count = count + rendered;
            if count == amount {
                proof {
                    let rem = render_frames_spec(
                        b.spec_samples(),
                        b.spec_channels(),
                        step_g,
                        self.looping,
                        self.prev_buffer_sample,
                        self.buf_read_pos as int,
                        self.playback_pos as int,
                        0,
                    );
                    assert(rem.frames =~= Seq::<StereoSample>::empty());
                    assert(full.frames =~= self.frame_samples@ + zero_frames(0));
                }
                return ;
            }
            let ghost p_end = self.buf_read_pos as int;
            let ghost q_end = self.playback_pos as int;
            self.buf_read_pos = 0;
            self.playback_pos = 0;
            let step_is_unity = {
                proof {
                    crate::sample::lemma_mul_u64_bound(
                        self.pitch as int,
                        self.resampling_multiplier as int,
                    );
                }
                let wide: u128 = (self.pitch as u128) * (self.resampling_multiplier as u128);
                wide / (FRAC_ONE as u128) == FRAC_ONE as u128
            };
            proof {
                let m = (amount - count) as nat;
                let rem_end = render_frames_spec(
                    b.spec_samples(),
                    b.spec_channels(),
                    step_g,
                    self.looping,
                    self.prev_buffer_sample,
                    p_end,
                    q_end,
                    m,
                );
                assert(m >= 1);
                assert(at_block_end(flen as int, step_g, p_end));
                assert(step_is_unity <==> step_g == FRAC_ONE as int);
            }
            if !self.looping {
                self.status = Status::Stopped;
                proof {
                    assert(full.frames =~= self.frame_samples@ + zero_frames(
                        (amount - count) as nat,
                    ));
                }
                return ;
            }
            if !step_is_unity && flen < 2 {
                // A looping resampled source with fewer than two frames
                // cannot advance: the rest of the block stays silent.
                proof {
                    assert(full.frames =~= self.frame_samples@ + zero_frames(
                        (amount - count) as nat,
                    ));
                }
                return ;
            }
        }
    }

    /// Renders frames until the end of the current pass through the
    /// buffer, or until `amount` frames are written, and returns the
    /// number written. The step is `pitch * resampling_multiplier`; a
    /// unity step copies frames directly, any other step resamples by
    /// linear interpolation.
    fn render_until_block_end(&mut self, b: &Buffer, amount: usize) -> (rendered: usize)
        requires
            b.wf(),
            b.spec_samples().len() > 0,
        ensures
            rendered <= amount,
            final(self).frame_samples@.len() == old(self).frame_samples@.len() + rendered,
            final(self).frame_samples@.subrange(0, old(self).frame_samples@.len() as int) == old(
                self,
            ).frame_samples@,
            *final(self) == (SoundSource {
                frame_samples: final(self).frame_samples,
                buf_read_pos: final(self).buf_read_pos,
                playback_pos: final(self).playback_pos,
                ..*old(self)
            }),
            outcome_continues(
                render_frames_spec(
                    b.spec_samples(),
                    b.spec_channels(),
                    step_of(old(self).pitch, old(self).resampling_multiplier),
                    old(self).looping,
                    old(self).prev_buffer_sample,
                    old(self).buf_read_pos as int,
                    old(self).playback_pos as int,
                    amount as nat,
                ),
                final(self).frame_samples@.skip(old(self).frame_samples@.len() as int),
                render_frames_spec(
                    b.spec_samples(),
                    b.spec_channels(),
                    step_of(old(self).pitch, old(self).resampling_multiplier),
                    old(self).looping,
                    old(self).prev_buffer_sample,
                    final(self).buf_read_pos as int,
                    final(self).playback_pos as int,
                    (amount - rendered) as nat,
                ),
            ),
            rendered == amount || at_block_end(
                b.spec_frames(),
                step_of(old(self).pitch, old(self).resampling_multiplier),
                final(self).buf_read_pos as int,
            ),
            rendered == 0 ==> *final(self) == *old(self),
    {
        proof {
            crate::sample::lemma_mul_u64_bound(
                self.pitch as int,
                self.resampling_multiplier as int,
            );
        }
        let wide: u128 = (self.pitch as u128) * (self.resampling_multiplier as u128);
        let step: u128 = wide / (FRAC_ONE as u128);
        if step == FRAC_ONE as u128 {
            self.render_fast(b, amount)
        } else {
            self.render_until_block_end_resample(b, amount, step)
        }
    }

    /// What one pass from the source's current state would produce.
    pub open spec fn spec_render_rem(self, b: Buffer, amount: nat) -> RenderOutcome {
        render_frames_spec(
            b.spec_samples(),
            b.spec_channels(),
            step_of(self.pitch, self.resampling_multiplier),
            self.looping,
            self.prev_buffer_sample,
            self.buf_read_pos as int,
            self.playback_pos as int,
            amount,
        )
    }

    /// The fast path: a unity step copies frames one for one from the
    /// integer read position, after first bridging a transient negative
    /// position with the cached previous frame.
    fn render_fast(&mut self, b: &Buffer, amount: usize) -> (rendered: usize)
        requires
            b.wf(),
            b.spec_samples().len() > 0,
            step_of(old(self).pitch, old(self).resampling_multiplier) == FRAC_ONE as int,
        ensures
            rendered <= amount,
            final(self).frame_samples@.len() == old(self).frame_samples@.len() + rendered,
            final(self).frame_samples@.subrange(0, old(self).frame_samples@.len() as int) == old(
                self,
            ).frame_samples@,
            *final(self) == (SoundSource {
                frame_samples: final(self).frame_samples,
                buf_read_pos: final(self).buf_read_pos,
                playback_pos: final(self).playback_pos,
                ..*old(self)
            }),
            outcome_continues(
                old(self).spec_render_rem(*b, amount as nat),
                final(self).frame_samples@.skip(old(self).frame_samples@.len() as int),
                final(self).spec_render_rem(*b, (amount - rendered) as nat),
            ),
            rendered == amount || at_block_end(
                b.spec_frames(),
                step_of(old(self).pitch, old(self).resampling_multiplier),
                final(self).buf_read_pos as int,
            ),
            rendered == 0 ==> *final(self) == *old(self),
    {
        let ghost base = old(self).frame_samples@.len() as int;
        let ghost full0 = old(self).spec_render_rem(*b, amount as nat);
        let ghost step_g = step_of(old(self).pitch, old(self).resampling_multiplier);
        let mut rendered: usize = 0;
        if amount == 0 {
            proof {
                assert(full0.frames =~= self.frame_samples@.skip(base) + full0.frames);
            }
            return 0;
        }
        if self.buf_read_pos < 0 {
            let prev = self.prev_buffer_sample;
            self.frame_samples.push(prev);
            self.buf_read_pos = 0;
            rendered = 1;
            proof {
                let rem_post = self.spec_render_rem(*b, (amount - 1) as nat);
                assert(full0.frames == seq![prev] + rem_post.frames);
                assert(self.frame_samples@.skip(base) =~= seq![prev]);
            }
        }
        let flen = b.channel_duration_in_samples();
        proof {
            crate::buffer::lemma_buffer_frames(b);
        }
        loop
            invariant
                b.wf(),
                b.spec_samples().len() > 0,
                flen as int == b.spec_frames(),
                flen >= 1,
                self.buf_read_pos >= 0,
                rendered <= amount,
                base == old(self).frame_samples@.len(),
                self.frame_samples@.len() == base + rendered,
                self.frame_samples@.subrange(0, base) == old(self).frame_samples@,
                step_g == FRAC_ONE as int,
                step_g == step_of(self.pitch, self.resampling_multiplier),
                full0 == old(self).spec_render_rem(*b, amount as nat),
                *self == (SoundSource {
                    frame_samples: self.frame_samples,
                    buf_read_pos: self.buf_read_pos,
                    playback_pos: self.playback_pos,
                    ..*old(self)
                }),
                outcome_continues(
                    full0,
                    self.frame_samples@.skip(base),
                    self.spec_render_rem(*b, (amount - rendered) as nat),
                ),
                rendered == 0 ==> *self == *old(self),
            ensures
                rendered <= amount,
                self.frame_samples@.len() == base + rendered,
                self.frame_samples@.subrange(0, base) == old(self).frame_samples@,
                *self == (SoundSource {
                    frame_samples: self.frame_samples,
                    buf_read_pos: self.buf_read_pos,
                    playback_pos: self.playback_pos,
                    ..*old(self)
                }),
                outcome_continues(
                    full0,
                    self.frame_samples@.skip(base),
                    self.spec_render_rem(*b, (amount - rendered) as nat),
                ),
                rendered == amount || (self.buf_read_pos >= 0 && (self.buf_read_pos as int) / (
                FRAC_ONE as int) >= flen as int),
                rendered == 0 ==> *self == *old(self),
            decreases amount - rendered,
        {
            if rendered == amount {
                break ;
            }
            let f_wide = self.buf_read_pos / (FRAC_ONE as i128);
            if f_wide >= flen as i128 {
                break ;
            }
            let fi = f_wide as usize;
            let fr = read_frame(b, fi);
            let ghost p_pre = self.buf_read_pos;
            let ghost q_pre = self.playback_pos;
            let ghost emitted_pre = self.frame_samples@.skip(base);
            self.frame_samples.push(fr);
            proof {
                vstd::arithmetic::div_mod::lemma_fundamental_div_mod(
                    p_pre as int,
                    FRAC_ONE as int,
                );
            }
            self.buf_read_pos = self.buf_read_pos + (FRAC_ONE as i128);
            self.playback_pos = advance_pos(self.playback_pos, FRAC_ONE as u128);
            rendered = rendered + 1;
            proof {
                let m = (amount - (rendered - 1)) as nat;
                let rem_pre = render_frames_spec(
                    b.spec_samples(),
                    b.spec_channels(),
                    step_g,
                    self.looping,
                    self.prev_buffer_sample,
                    p_pre as int,
                    q_pre as int,
                    m,
                );
                let rem_post = self.spec_render_rem(*b, (amount - rendered) as nat);
                assert(rem_pre.frames == seq![fr] + rem_post.frames);
                assert(self.frame_samples@.skip(base) =~= emitted_pre + seq![fr]);
                assert(full0.frames =~= (emitted_pre + seq![fr]) + rem_post.frames);
                assert(self.frame_samples@.subrange(0, base) =~= old(self).frame_samples@);
            }
        }
        rendered
    }

    /// The resampled path: each output frame interpolates linearly
    /// between two neighbouring buffer frames at the fractional read
    /// position; a negative position interpolates from the cached
    /// previous frame into the buffer's first frame.
    fn render_until_block_end_resample(&mut self, b: &Buffer, amount: usize, step: u128) -> (rendered:
        usize)
        requires
            b.wf(),
            b.spec_samples().len() > 0,
            step as int == step_of(old(self).pitch, old(self).resampling_multiplier),
            step as int != FRAC_ONE as int,
        ensures
            rendered <= amount,
            final(self).frame_samples@.len() == old(self).frame_samples@.len() + rendered,
            final(self).frame_samples@.subrange(0, old(self).frame_samples@.len() as int) == old(
                self,
            ).frame_samples@,
            *final(self) == (SoundSource {
                frame_samples: final(self).frame_samples,
                buf_read_pos: final(self).buf_read_pos,
                playback_pos: final(self).playback_pos,
                ..*old(self)
            }),
            outcome_continues(
                old(self).spec_render_rem(*b, amount as nat),
                final(self).frame_samples@.skip(old(self).frame_samples@.len() as int),
                final(self).spec_render_rem(*b, (amount - rendered) as nat),
            ),
            rendered == amount || at_block_end(
                b.spec_frames(),
                step_of(old(self).pitch, old(self).resampling_multiplier),
                final(self).buf_read_pos as int,
            ),
            rendered == 0 ==> *final(self) == *old(self),
    {
        let ghost base = old(self).frame_samples@.len() as int;
        let ghost full0 = old(self).spec_render_rem(*b, amount as nat);
        let ghost step_g = step as int;
        proof {
            crate::sample::lemma_mul_u64_bound(
                old(self).pitch as int,
                old(self).resampling_multiplier as int,
            );
        }
        let mut rendered: usize = 0;
        // Bridge a negative read position: interpolate between the cached
        // previous frame and the buffer's first frame until the position
        // crosses into the buffer.
        while self.buf_read_pos < 0 && rendered < amount
            invariant
                b.wf(),
                b.spec_samples().len() > 0,
                rendered <= amount,
                base == old(self).frame_samples@.len(),
                self.frame_samples@.len() == base + rendered,
                self.frame_samples@.subrange(0, base) == old(self).frame_samples@,
                step as int == step_g,
                step_g == step_of(self.pitch, self.resampling_multiplier),
                step_g != FRAC_ONE as int,
                0 <= step_g <= (u64::MAX as int) * (u64::MAX as int) / (FRAC_ONE as int),
                full0 == old(self).spec_render_rem(*b, amount as nat),
                *self == (SoundSource {
                    frame_samples: self.frame_samples,
                    buf_read_pos: self.buf_read_pos,
                    playback_pos: self.playback_pos,
                    ..*old(self)
                }),
                outcome_continues(
                    full0,
                    self.frame_samples@.skip(base),
                    self.spec_render_rem(*b, (amount - rendered) as nat),
                ),
                rendered == 0 ==> *self == *old(self),
            decreases amount - rendered,
        {
            let w = frac_of(self.buf_read_pos);
            let f0 = read_frame(b, 0);
            let prev = self.prev_buffer_sample;
            let l = crate::sample::lerp(prev.left, f0.left, w);
            let r = crate::sample::lerp(prev.right, f0.right, w);
            let fr = StereoSample { left: l, right: r };
            let ghost p_pre = self.buf_read_pos;
            let ghost q_pre = self.playback_pos;
            let ghost emitted_pre = self.frame_samples@.skip(base);
            self.frame_samples.push(fr);
            self.buf_read_pos = self.buf_read_pos + (step as i128);
            self.playback_pos = advance_pos(self.playback_pos, step);
            rendered = rendered + 1;
            proof {
                let m = (amount - (rendered - 1)) as nat;
                let rem_pre = render_frames_spec(
                    b.spec_samples(),
                    b.spec_channels(),
                    step_g,
                    self.looping,
                    self.prev_buffer_sample,
                    p_pre as int,
                    q_pre as int,
                    m,
                );
                let rem_post = self.spec_render_rem(*b, (amount - rendered) as nat);
                assert(fr == lerp_frame(
                    self.prev_buffer_sample,
                    frame_at(b.spec_samples(), b.spec_channels(), 0),
                    (p_pre as int) % (FRAC_ONE as int),
                ));
                assert(rem_pre.frames == seq![fr] + rem_post.frames);
                assert(self.frame_samples@.skip(base) =~= emitted_pre + seq![fr]);
                assert(full0.frames =~= (emitted_pre + seq![fr]) + rem_post.frames);
                assert(self.frame_samples@.subrange(0, base) =~= old(self).frame_samples@);
            }
        }
        if rendered == amount {
            return rendered;
        }
        let flen = b.channel_duration_in_samples();
        proof {
            crate::buffer::lemma_buffer_frames(b);
        }
        // The hot loop stops one frame early so both interpolation
        // endpoints stay inside the buffer.
        loop
            invariant
                b.wf(),
                b.spec_samples().len() > 0,
                flen as int == b.spec_frames(),
                flen >= 1,
                self.buf_read_pos >= 0,
                rendered <= amount,
                base == old(self).frame_samples@.len(),
                self.frame_samples@.len() == base + rendered,
                self.frame_samples@.subrange(0, base) == old(self).frame_samples@,
                step as int == step_g,
                step_g == step_of(self.pitch, self.resampling_multiplier),
                step_g != FRAC_ONE as int,
                0 <= step_g <= (u64::MAX as int) * (u64::MAX as int) / (FRAC_ONE as int),
                full0 == old(self).spec_render_rem(*b, amount as nat),
                *self == (SoundSource {
                    frame_samples: self.frame_samples,
                    buf_read_pos: self.buf_read_pos,
                    playback_pos: self.playback_pos,
                    ..*old(self)
                }),
                outcome_continues(
                    full0,
                    self.frame_samples@.skip(base),
                    self.spec_render_rem(*b, (amount - rendered) as nat),
                ),
                rendered == 0 ==> *self == *old(self),
            ensures
                rendered <= amount,
                self.frame_samples@.len() == base + rendered,
                self.frame_samples@.subrange(0, base) == old(self).frame_samples@,
                *self == (SoundSource {
                    frame_samples: self.frame_samples,
                    buf_read_pos: self.buf_read_pos,
                    playback_pos: self.playback_pos,
                    ..*old(self)
                }),
                outcome_continues(
                    full0,
                    self.frame_samples@.skip(base),
                    self.spec_render_rem(*b, (amount - rendered) as nat),
                ),
                rendered == amount || (self.buf_read_pos >= 0 && (self.buf_read_pos as int) / (
                FRAC_ONE as int) >= flen as int - 1),
                rendered == 0 ==> *self == *old(self),
            decreases amount - rendered,
        {
            if rendered == amount {
                break ;
            }
            let f_wide = self.buf_read_pos / (FRAC_ONE as i128);
            if f_wide >= (flen as i128) - 1 {
                break ;
            }
            let fi = f_wide as usize;
            let w = frac_of(self.buf_read_pos);
            let fa = read_frame(b, fi);
            let fb = read_frame(b, fi + 1);
            let l = crate::sample::lerp(fa.left, fb.left, w);
            let r = crate::sample::lerp(fa.right, fb.right, w);
            let fr = StereoSample { left: l, right: r };
            let ghost p_pre = self.buf_read_pos;
            let ghost q_pre = self.playback_pos;
            let ghost emitted_pre = self.frame_samples@.skip(base);
            self.frame_samples.push(fr);
            proof {
                vstd::arithmetic::div_mod::lemma_fundamental_div_mod(
                    p_pre as int,
                    FRAC_ONE as int,
                );
            }
            self.buf_read_pos = self.buf_read_pos + (step as i128);
            self.playback_pos = advance_pos(self.playback_pos, step);
            rendered = rendered + 1;
            proof {
                let m = (amount - (rendered - 1)) as nat;
                let rem_pre = render_frames_spec(
                    b.spec_samples(),
                    b.spec_channels(),
                    step_g,
                    self.looping,
                    self.prev_buffer_sample,
                    p_pre as int,
                    q_pre as int,
                    m,
                );
                let rem_post = self.spec_render_rem(*b, (amount - rendered) as nat);
                assert(fr == lerp_frame(
                    frame_at(b.spec_samples(), b.spec_channels(), fi as int),
                    frame_at(b.spec_samples(), b.spec_channels(), fi as int + 1),
                    (p_pre as int) % (FRAC_ONE as int),
                ));
                assert(rem_pre.frames == seq![fr] + rem_post.frames);
                assert(self.frame_samples@.skip(base) =~= emitted_pre + seq![fr]);
                assert(full0.frames =~= (emitted_pre + seq![fr]) + rem_post.frames);
                assert(self.frame_samples@.subrange(0, base) =~= old(self).frame_samples@);
            }
        }
        rendered
    }
}

impl Default for SoundSource {
    /// A stopped, un-attached source with unity pitch, gain and blend,
    /// routed to the primary bus.
    fn default() -> (s: Self)
        ensures
            s.name@ == Seq::<char>::empty(),
            s.buffer is None,
            s.buf_read_pos == 0,
            s.playback_pos == 0,
            s.pitch == FRAC_ONE as u64,
            s.gain == FRAC_ONE,
            s.looping == false,
            s.spatial_blend == FRAC_ONE,
            s.panning == 0,
            s.resampling_multiplier == FRAC_ONE as u64,
            s.status is Stopped,
            s.bus@ == "Master"@,
            s.play_once == false,
            s.last_left_gain is None,
            s.last_right_gain is None,
            s.frame_samples@ == Seq::<StereoSample>::empty(),
            s.prev_buffer_sample == (StereoSample { left: 0, right: 0 }),
            s.radius == FRAC_ONE,
            s.position == (Vec3I { x: 0, y: 0, z: 0 }),
            s.max_distance == i64::MAX,
            s.rolloff_factor == FRAC_ONE,
            s.wf(),
    {
        SoundSource {
            name: String::new(),
            buffer: None,
            buf_read_pos: 0,
            playback_pos: 0,
            pitch: FRAC_ONE as u64,
            gain: FRAC_ONE,
            looping: false,
            spatial_blend: FRAC_ONE,
            panning: 0,
            resampling_multiplier: FRAC_ONE as u64,
            status: Status::Stopped,
            bus: String::from_str("Master"),
            play_once: false,
            last_left_gain: None,
            last_right_gain: None,
            frame_samples: Vec::new(),
            prev_buffer_sample: StereoSample { left: 0, right: 0 },
            radius: FRAC_ONE,
            position: Vec3I { x: 0, y: 0, z: 0 },
            max_distance: i64::MAX,
            rolloff_factor: FRAC_ONE,
        }
    }
}

} // verus!
