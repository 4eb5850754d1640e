//! The mixing context: one pool of sources, one listener, one bus graph.
//!
//! `SoundContext::render` is the per-block entry point: it purges finished
//! play-once sources, opens a render pass on the bus graph, mixes every
//! playing source into its target bus with click-free gains, and closes
//! the pass into the output block. A source routed to a bus name absent
//! from the graph contributes nothing — silently, never fatally.

use vstd::prelude::*;

use crate::bus::{mix_blocks, process_block, zero_block, AudioBusGraph};
use crate::listener::{clamp_unit_spec, geometric_pan_spec, Listener};
use crate::pool::{Handle, Pool};
use crate::sample::{lerp_spec, sat64, scale_spec, tzdiv, FRAC_ONE};
use crate::source::{render_result, zero_frames, SoundSource, Status, StereoSample};

verus! {

/// The gain-ramp weight of frame `k` in a block of `n`: `k / n` in
/// Q16.16, sweeping 0 toward 1 across the block.
pub open spec fn ramp_weight(k: int, n: int) -> int {
    if n > 0 {
        (k * (FRAC_ONE as int)) / n
    } else {
        0
    }
}

/// One source frame under the click-free gain rule: when the target
/// gains differ from the previous block's, each frame is scaled by a
/// gain interpolated from last toward target across the block; otherwise
/// by the constant target gain.
pub open spec fn gained_frame(
    fr: StereoSample,
    last_l: int,
    last_r: int,
    l: int,
    r: int,
    k: int,
    n: int,
    ramp: bool,
) -> StereoSample {
    if ramp {
        let gl = sat64(lerp_spec(last_l, l, ramp_weight(k, n)));
        let gr = sat64(lerp_spec(last_r, r, ramp_weight(k, n)));
        StereoSample {
            left: sat64(tzdiv(fr.left * gl, FRAC_ONE as int)) as i64,
            right: sat64(tzdiv(fr.right * gr, FRAC_ONE as int)) as i64,
        }
    } else {
        StereoSample {
            left: sat64(tzdiv(fr.left * l, FRAC_ONE as int)) as i64,
            right: sat64(tzdiv(fr.right * r, FRAC_ONE as int)) as i64,
        }
    }
}

/// A whole block of source frames under the click-free gain rule, with
/// the ramp engaged exactly when the last gains differ from the targets.
pub open spec fn gained_frames(
    raw: Seq<StereoSample>,
    last_l: int,
    last_r: int,
    l: int,
    r: int,
    n: int,
) -> Seq<StereoSample> {
    let ramp = !(last_l == l && last_r == r);
    Seq::new(raw.len(), |k: int| gained_frame(raw[k], last_l, last_r, l, r, k, n, ramp))
}

/// The panning a source is mixed with: its authored panning blended
/// toward the geometry-derived panning by `spatial_blend`, clamped into
/// the unit range.
pub open spec fn effective_pan_spec(s: SoundSource, listener: Listener) -> int {
    clamp_unit_spec(
        sat64(
            lerp_spec(
                s.panning as int,
                geometric_pan_spec(listener, s.position),
                s.spatial_blend as int,
            ),
        ),
    )
}

/// The left channel gain: `gain * (1 + panning)`.
pub open spec fn left_gain_spec(s: SoundSource, listener: Listener) -> int {
    sat64(scale_spec(s.gain as int, FRAC_ONE as int + effective_pan_spec(s, listener)))
}

/// The right channel gain: `gain * (1 - panning)`.
pub open spec fn right_gain_spec(s: SoundSource, listener: Listener) -> int {
    sat64(scale_spec(s.gain as int, FRAC_ONE as int - effective_pan_spec(s, listener)))
}

/// Computes the two channel gains of a source as heard by `listener`.
pub fn channel_gains(s: &SoundSource, listener: &Listener) -> (r: (i64, i64))
    requires
        s.wf(),
        listener.wf(),
    ensures
        r.0 as int == left_gain_spec(*s, *listener),
        r.1 as int == right_gain_spec(*s, *listener),
{
    let geo = crate::listener::geometric_pan(listener, s.position);
    let blended = crate::sample::lerp(s.panning, geo, s.spatial_blend as u64);
    let pan = crate::listener::clamp_unit(blended);
    let left = crate::sample::scale(s.gain, (FRAC_ONE + pan) as u64);
    let right = crate::sample::scale(s.gain, (FRAC_ONE - pan) as u64);
    (left, right)
}

/// Computes the ramp weight `k / n` in Q16.16.
fn ramp_weight_exec(k: usize, n: usize) -> (w: u64)
    requires
        k < n,
    ensures
        w as int == ramp_weight(k as int, n as int),
        w < FRAC_ONE as u64,
{
    proof {
        crate::sample::lemma_mul_u64_bound(k as int, FRAC_ONE as int);
    }
    let wide: u128 = (k as u128) * (FRAC_ONE as u128) / (n as u128);
    proof {
        assert((k as int) * (FRAC_ONE as int) < (FRAC_ONE as int) * (n as int)) by (nonlinear_arith)
            requires
                0 <= k < n,
        ;
        vstd::arithmetic::div_mod::lemma_div_by_multiple_is_strongly_ordered(
            (k as int) * (FRAC_ONE as int),
            (FRAC_ONE as int) * (n as int),
            FRAC_ONE as int,
            n as int,
        );
        vstd::arithmetic::div_mod::lemma_div_multiples_vanish(FRAC_ONE as int, n as int);
    }
    wide as u64
}

/// Adds a source's scratch frames into `mix_buffer` with the click-free
/// gain rule of `gained_frames`: the last applied gains are
/// first seeded from the targets when the source has never been mixed,
/// so a fresh source starts at full target gain instead of popping in.
pub fn render_with_params(
    source: &mut SoundSource,
    left_gain: i64,
    right_gain: i64,
    mix_buffer: &mut Vec<StereoSample>,
)
    ensures
        ({
            let seed_l = match old(source).last_left_gain {
                Some(g) => g as int,
                None => left_gain as int,
            };
            let seed_r = match old(source).last_right_gain {
                Some(g) => g as int,
                None => right_gain as int,
            };
            &&& final(mix_buffer)@ == mix_blocks(
                old(mix_buffer)@,
                gained_frames(
                    old(source).frame_samples@,
                    seed_l,
                    seed_r,
                    left_gain as int,
                    right_gain as int,
                    old(mix_buffer)@.len() as int,
                ),
            )
            &&& *final(source) == (SoundSource {
                last_left_gain: Some(seed_l as i64),
                last_right_gain: Some(seed_r as i64),
                ..*old(source)
            })
        }),
{
    let last_left = match source.last_left_gain {
        Some(g) => g,
        None => left_gain,
    };
    let last_right = match source.last_right_gain {
        Some(g) => g,
        None => right_gain,
    };
    source.last_left_gain = Some(last_left);
    source.last_right_gain = Some(last_right);
    let n = mix_buffer.len();
    let m = source.frame_samples.len();
    let count = if m < n {
        m
    } else {
        n
    };
    let ramp = last_left != left_gain || last_right != right_gain;
    let ghost pre = mix_buffer@;
    let ghost gf = gained_frames(
        source.frame_samples@,
        last_left as int,
        last_right as int,
        left_gain as int,
        right_gain as int,
        n as int,
    );
    for k in 0..count
        invariant
            count <= n,
            count <= m,
            count == (if m < n {
                m as int
            } else {
                n as int
            }),
            n == pre.len(),
            m == source.frame_samples@.len(),
            mix_buffer@.len() == pre.len(),
            ramp == !(last_left == left_gain && last_right == right_gain),
            gf == gained_frames(
                source.frame_samples@,
                last_left as int,
                last_right as int,
                left_gain as int,
                right_gain as int,
                n as int,
            ),
            forall|j: int| 0 <= j < k ==> #[trigger] mix_buffer@[j] == add_gained(pre[j], gf[j]),
            forall|j: int| k <= j < pre.len() ==> #[trigger] mix_buffer@[j] == pre[j],
    {
        let fr = source.frame_samples[k];
        let (gl, gr): (i64, i64) = if ramp {
            let w = ramp_weight_exec(k, n);
            (
                crate::sample::lerp(last_left, left_gain, w),
                crate::sample::lerp(last_right, right_gain, w),
            )
        } else {
            (left_gain, right_gain)
        };
        let add_l = crate::sample::scale_signed(fr.left, gl);
        let add_r = crate::sample::scale_signed(fr.right, gr);
        let acc = mix_buffer[k];
        mix_buffer[k] = StereoSample {
            left: crate::sample::sat_add(acc.left, add_l),
            right: crate::sample::sat_add(acc.right, add_r),
        };
        proof {
            assert(gf[k as int] == gained_frame(
                source.frame_samples@[k as int],
                last_left as int,
                last_right as int,
                left_gain as int,
                right_gain as int,
                k as int,
                n as int,
                ramp,
            ));
        }
    }
    proof {
        assert(mix_buffer@ =~= mix_blocks(pre, gf));
    }
}

/// A frame of the accumulator with a gained frame added on, channel-wise
/// and saturating.
pub open spec fn add_gained(acc: StereoSample, add: StereoSample) -> StereoSample {
    crate::bus::add_frames(acc, add)
}

/// Mixes a source into `mix_buffer` with gains derived from its own
/// parameters and the listener's geometry, then records those gains as
/// the last applied ones for the next block's ramp.
pub fn render_source_default(
    source: &mut SoundSource,
    listener: &Listener,
    mix_buffer: &mut Vec<StereoSample>,
)
    requires
        old(source).wf(),
        listener.wf(),
    ensures
        final(source).wf(),
        ({
            let lg = left_gain_spec(*old(source), *listener);
            let rg = right_gain_spec(*old(source), *listener);
            let seed_l = match old(source).last_left_gain {
                Some(g) => g as int,
                None => lg,
            };
            let seed_r = match old(source).last_right_gain {
                Some(g) => g as int,
                None => rg,
            };
            &&& final(mix_buffer)@ == mix_blocks(
                old(mix_buffer)@,
                gained_frames(
                    old(source).frame_samples@,
                    seed_l,
                    seed_r,
                    lg,
                    rg,
                    old(mix_buffer)@.len() as int,
                ),
            )
            &&& *final(source) == (SoundSource {
                last_left_gain: Some(lg as i64),
                last_right_gain: Some(rg as i64),
                ..*old(source)
            })
        }),
{
    let (left_gain, right_gain) = channel_gains(source, listener);
    render_with_params(source, left_gain, right_gain, mix_buffer);
    source.last_left_gain = Some(left_gain);
    source.last_right_gain = Some(right_gain);
}

/// What one block's mixing takes from a source: its rendered frames
/// under the click-free gain rule, with the gains the listener's
/// geometry gives it.
pub open spec fn source_mix_frames(s: SoundSource, listener: Listener, n: nat) -> Seq<
    StereoSample,
> {
    let raw = render_result(s, n).frames;
    let lg = left_gain_spec(s, listener);
    let rg = right_gain_spec(s, listener);
    let seed_l = match s.last_left_gain {
        Some(g) => g as int,
        None => lg,
    };
    let seed_r = match s.last_right_gain {
        Some(g) => g as int,
        None => rg,
    };
    gained_frames(raw, seed_l, seed_r, lg, rg, n as int)
}

/// How one render pass transforms a playing, routed source: its scratch
/// frames, positions and status follow `render_result`, its last applied
/// gains become the gains it was mixed with, and nothing else changes.
pub open spec fn renders_to(
    s_old: SoundSource,
    s_new: SoundSource,
    listener: Listener,
    n: nat,
) -> bool {
    let rr = render_result(s_old, n);
    let lg = left_gain_spec(s_old, listener);
    let rg = right_gain_spec(s_old, listener);
    &&& s_new.frame_samples@ == rr.frames
    &&& s_new.buf_read_pos as int == rr.buf_pos
    &&& s_new.playback_pos as int == rr.play_pos
    &&& s_new.status == (if rr.playing {
        s_old.status
    } else {
        Status::Stopped
    })
    &&& s_new.last_left_gain == Some(lg as i64)
    &&& s_new.last_right_gain == Some(rg as i64)
    &&& s_new == (SoundSource {
        frame_samples: s_new.frame_samples,
        buf_read_pos: s_new.buf_read_pos,
        playback_pos: s_new.playback_pos,
        status: s_new.status,
        last_left_gain: s_new.last_left_gain,
        last_right_gain: s_new.last_right_gain,
        ..s_old
    })
}

/// The bus inputs after mixing the sources in slots `i` and beyond, in
/// slot order: each playing source routed to an existing bus adds its
/// gained frames into that bus's input; every other slot contributes
/// nothing.
pub open spec fn mixed_inputs(
    p: Pool<SoundSource>,
    g: AudioBusGraph,
    listener: Listener,
    inputs: Seq<Seq<StereoSample>>,
    n: nat,
    i: int,
) -> Seq<Seq<StereoSample>>
    decreases p.slot_count() - i,
{
    if i < 0 || i >= p.slot_count() {
        inputs
    } else {
        match p.stored_at(i) {
            Some(s) => if s.status is Playing && g.find_bus(s.bus@) is Some {
                let t = g.find_bus(s.bus@).unwrap();
                mixed_inputs(
                    p,
                    g,
                    listener,
                    inputs.update(t, mix_blocks(inputs[t], source_mix_frames(s, listener, n))),
                    n,
                    i + 1,
                )
            } else {
                mixed_inputs(p, g, listener, inputs, n, i + 1)
            },
            None => mixed_inputs(p, g, listener, inputs, n, i + 1),
        }
    }
}

/// How the purge at the start of a render pass treats slot `j`: a source
/// that has played once and stopped is freed, every other slot is kept
/// as it was.
pub open spec fn purged_slot(p0: Pool<SoundSource>, p1: Pool<SoundSource>, j: int) -> bool {
    match p0.stored_at(j) {
        Some(s) => if s.play_once && s.status is Stopped {
            p1.stored_at(j) is None
        } else {
            p1.stored_at(j) == Some(s) && p1.gen_at(j) == p0.gen_at(j)
        },
        None => p1.stored_at(j) is None,
    }
}

/// How a whole render pass treats slot `j`: purged sources are gone,
/// playing sources routed to an existing bus are transformed by
/// `renders_to`, and everything else is untouched.
pub open spec fn slot_outcome(
    p0: Pool<SoundSource>,
    p1: Pool<SoundSource>,
    g: AudioBusGraph,
    listener: Listener,
    n: nat,
    j: int,
) -> bool {
    match p0.stored_at(j) {
        Some(s) => if s.play_once && s.status is Stopped {
            p1.stored_at(j) is None
        } else if s.status is Playing && g.find_bus(s.bus@) is Some {
            p1.stored_at(j) matches Some(s2) && renders_to(s, s2, listener, n) && p1.gen_at(j)
                == p0.gen_at(j)
        } else {
            p1.stored_at(j) == Some(s) && p1.gen_at(j) == p0.gen_at(j)
        },
        None => p1.stored_at(j) is None,
    }
}

/// A found bus index lies in range and bears the searched name.
pub proof fn lemma_find_from_range(g: AudioBusGraph, name: Seq<char>, i: int)
    ensures
        g.find_from(name, i) matches Some(t) ==> i <= t < g.bus_count() && g.name_of(t) == name,
    decreases g.bus_count() - i,
{
    if 0 <= i < g.bus_count() {
        if g.name_of(i) == name {
        } else {
            lemma_find_from_range(g, name, i + 1);
        }
    }
}

/// Two graphs with the same bus names resolve every name alike.
pub proof fn lemma_find_same(g1: AudioBusGraph, g2: AudioBusGraph, name: Seq<char>, i: int)
    requires
        g1.bus_count() == g2.bus_count(),
        forall|j: int| 0 <= j < g1.bus_count() ==> #[trigger] g1.name_of(j) == g2.name_of(j),
    ensures
        g1.find_from(name, i) == g2.find_from(name, i),
    decreases g1.bus_count() - i,
{
    if 0 <= i < g1.bus_count() {
        lemma_find_same(g1, g2, name, i + 1);
    }
}

/// A render pass emits exactly `n` frames whatever the source's state.
pub proof fn lemma_render_result_len(s: SoundSource, n: nat)
    ensures
        render_result(s, n).frames.len() == n,
{
    match s.buffer {
        Some(b) => {
            if s.status is Playing && b.spec_samples().len() > 0 {
                crate::source::lemma_render_frames_len(
                    b.spec_samples(),
                    b.spec_channels(),
                    crate::source::step_of(s.pitch, s.resampling_multiplier),
                    s.looping,
                    s.prev_buffer_sample,
                    s.buf_read_pos as int,
                    s.playback_pos as int,
                    n,
                );
            }
        },
        None => {},
    }
}

/// Mixing sources preserves the number of buses and every block's
/// length.
pub proof fn lemma_mixed_inputs_lens(
    p: Pool<SoundSource>,
    g: AudioBusGraph,
    listener: Listener,
    inputs: Seq<Seq<StereoSample>>,
    n: nat,
    i: int,
    len: nat,
)
    requires
        inputs.len() == g.bus_count(),
        forall|j: int| 0 <= j < inputs.len() ==> (#[trigger] inputs[j]).len() == len,
    ensures
        mixed_inputs(p, g, listener, inputs, n, i).len() == g.bus_count(),
        forall|j: int|
            0 <= j < g.bus_count() ==> (#[trigger] mixed_inputs(p, g, listener, inputs, n, i)[j]).len()
                == len,
    decreases p.slot_count() - i,
{
    if i < 0 || i >= p.slot_count() {
    } else {
        match p.stored_at(i) {
            Some(s) => {
                if s.status is Playing && g.find_bus(s.bus@) is Some {
                    let t = g.find_bus(s.bus@).unwrap();
                    lemma_find_from_range(g, s.bus@, 0);
                    let updated = inputs.update(
                        t,
                        mix_blocks(inputs[t], source_mix_frames(s, listener, n)),
                    );
                    assert(forall|j: int|
                        0 <= j < updated.len() ==> (#[trigger] updated[j]).len() == len);
                    lemma_mixed_inputs_lens(p, g, listener, updated, n, i + 1, len);
                } else {
                    lemma_mixed_inputs_lens(p, g, listener, inputs, n, i + 1, len);
                }
            },
            None => {
                lemma_mixed_inputs_lens(p, g, listener, inputs, n, i + 1, len);
            },
        }
    }
}

/// The bottom-up bus mix preserves the number of buses and every
/// block's length.
pub proof fn lemma_drained_lens(
    inputs: Seq<Seq<StereoSample>>,
    parents: Seq<int>,
    effects: Seq<Seq<crate::bus::Effect>>,
    i: int,
    len: nat,
)
    requires
        forall|j: int| 0 <= j < inputs.len() ==> (#[trigger] inputs[j]).len() == len,
        forall|j: int| 1 <= j < inputs.len() ==> 0 <= #[trigger] parents[j] < j,
        i < inputs.len(),
    ensures
        crate::bus::drained(inputs, parents, effects, i).len() == inputs.len(),
        forall|j: int|
            0 <= j < inputs.len() ==> (#[trigger] crate::bus::drained(inputs, parents, effects, i)[j]).len()
                == len,
    decreases i,
{
    if i <= 0 {
    } else {
        let stepped = crate::bus::drain_step(inputs, parents, effects, i);
        assert(forall|j: int| 0 <= j < stepped.len() ==> (#[trigger] stepped[j]).len() == len);
        lemma_drained_lens(stepped, parents, effects, i - 1, len);
    }
}

/// A pass over sources of which none is both playing and routed to an
/// existing bus leaves the bus inputs exactly as they were.
pub proof fn lemma_mixed_inputs_skip_all(
    p: Pool<SoundSource>,
    g: AudioBusGraph,
    listener: Listener,
    inputs: Seq<Seq<StereoSample>>,
    n: nat,
    i: int,
)
    requires
        forall|j: int|
            0 <= j < p.slot_count() ==> match #[trigger] p.stored_at(j) {
                Some(s) => !(s.status is Playing && g.find_bus(s.bus@) is Some),
                None => true,
            },
    ensures
        mixed_inputs(p, g, listener, inputs, n, i) == inputs,
    decreases p.slot_count() - i,
{
    if 0 <= i < p.slot_count() {
        lemma_mixed_inputs_skip_all(p, g, listener, inputs, n, i + 1);
    }
}

/// Every effect maps a silent frame to a silent frame, so a whole chain
/// does too.
pub proof fn lemma_process_frame_zero(effects: Seq<crate::bus::Effect>)
    ensures
        crate::bus::process_frame(effects, StereoSample { left: 0, right: 0 }) == (StereoSample {
            left: 0,
            right: 0,
        }),
    decreases effects.len(),
{
    if effects.len() > 0 {
        let z = StereoSample { left: 0, right: 0 };
        assert(crate::bus::apply_effect_spec(effects.first(), z) == z);
        lemma_process_frame_zero(effects.drop_first());
    }
}

/// The bottom-up bus mix of all-silent inputs stays all silent.
pub proof fn lemma_drained_zero(
    inputs: Seq<Seq<StereoSample>>,
    parents: Seq<int>,
    effects: Seq<Seq<crate::bus::Effect>>,
    i: int,
    len: nat,
)
    requires
        forall|j: int| 0 <= j < inputs.len() ==> #[trigger] inputs[j] == zero_frames(len),
        forall|j: int| 1 <= j < inputs.len() ==> 0 <= #[trigger] parents[j] < j,
        i < inputs.len(),
    ensures
        forall|j: int|
            0 <= j < inputs.len() ==> #[trigger] crate::bus::drained(inputs, parents, effects, i)[j]
                == zero_frames(len),
        crate::bus::drained(inputs, parents, effects, i).len() == inputs.len(),
    decreases i,
{
    if i <= 0 {
    } else {
        let z = zero_frames(len);
        let processed = process_block(effects[i], inputs[i]);
        assert forall|k: int| 0 <= k < processed.len() implies #[trigger] processed[k]
            == (StereoSample { left: 0, right: 0 }) by {
            lemma_process_frame_zero(effects[i]);
            assert(inputs[i][k] == z[k]);
        }
        let stepped = crate::bus::drain_step(inputs, parents, effects, i);
        assert forall|j: int| 0 <= j < stepped.len() implies #[trigger] stepped[j] == zero_frames(
            len,
        ) by {
            if j == parents[i] {
                assert(stepped[j] == mix_blocks(inputs[j], processed));
                assert(stepped[j] =~= zero_frames(len));
            }
        }
        lemma_drained_zero(stepped, parents, effects, i - 1, len);
    }
}

/// Misrouting is silent: when no source in the pool is both playing and
/// routed to a bus that exists in the graph — in particular when a
/// playing source targets a bus name absent from the graph and no other
/// source plays — the whole render pass mixes nothing, and the output
/// block it computes is all zeros.
pub proof fn lemma_missing_bus_renders_silence(
    p: Pool<SoundSource>,
    g: AudioBusGraph,
    listener: Listener,
    len: nat,
)
    requires
        g.wf(),
        forall|j: int|
            0 <= j < p.slot_count() ==> match #[trigger] p.stored_at(j) {
                Some(s) => !(s.status is Playing && g.find_bus(s.bus@) is Some),
                None => true,
            },
    ensures
        ({
            let zeros_in = Seq::new(g.bus_count(), |b: int| zero_frames(len));
            let mixed = mixed_inputs(p, g, listener, zeros_in, len, 0);
            let fin = crate::bus::drained(
                mixed,
                g.parents_seq(),
                g.effects_seq(),
                g.bus_count() as int - 1,
            );
            &&& mixed == zeros_in
            &&& process_block(g.effects_of(0), fin[0]) == zero_frames(len)
        }),
{
    let zeros_in = Seq::new(g.bus_count(), |b: int| zero_frames(len));
    lemma_mixed_inputs_skip_all(p, g, listener, zeros_in, len, 0);
    assert forall|j: int| 1 <= j < zeros_in.len() implies 0 <= #[trigger] g.parents_seq()[j]
        < j by {
        assert(g.parents_seq()[j] == g.parent_of(j));
    }
    lemma_drained_zero(
        zeros_in,
        g.parents_seq(),
        g.effects_seq(),
        g.bus_count() as int - 1,
        len,
    );
    let fin = crate::bus::drained(
        zeros_in,
        g.parents_seq(),
        g.effects_seq(),
        g.bus_count() as int - 1,
    );
    assert(fin[0] == zero_frames(len));
    let out = process_block(g.effects_of(0), fin[0]);
    assert forall|k: int| 0 <= k < out.len() implies #[trigger] out[k] == (StereoSample {
        left: 0,
        right: 0,
    }) by {
        lemma_process_frame_zero(g.effects_of(0));
        assert(fin[0][k] == zero_frames(len)[k]);
    }
    assert(out =~= zero_frames(len));
}

/// The mixing engine's shared state: the pool of sources, the listener,
/// the bus graph, and the pause flag.
pub struct SoundContext {
    pub sources: Pool<SoundSource>,
    pub listener: Listener,
    pub bus_graph: AudioBusGraph,
    pub paused: bool,
    /// Wall-clock time the last render pass took, recorded from outside.
    pub render_duration_nanos: u64,
}

impl SoundContext {
    /// Everything the render entry point assumes: pool and graph
    /// internally consistent, listener axes in range, and every stored
    /// source well formed.
    pub open spec fn wf(&self) -> bool {
        &&& self.sources.wf()
        &&& self.bus_graph.wf()
        &&& self.listener.wf()
        &&& forall|h: Handle| self.sources.valid(h) ==> (#[trigger] self.sources.at(h)).wf()
    }

    /// A fresh, unpaused context with no sources and only the primary
    /// bus.
    pub fn new() -> (c: SoundContext)
        ensures
            c.wf(),
            c.sources.slot_count() == 0,
            forall|h: Handle| !c.sources.valid(h),
            c.bus_graph.bus_count() == 1,
            c.bus_graph.name_of(0) == "Master"@,
            c.bus_graph.effects_of(0) == Seq::<crate::bus::Effect>::empty(),
            !c.paused,
            c.render_duration_nanos == 0,
    {
        SoundContext {
            sources: Pool::new(),
            listener: Listener::default(),
            bus_graph: AudioBusGraph::new(),
            paused: false,
            render_duration_nanos: 0,
        }
    }

    /// Wall-clock time the last render pass took, in nanoseconds, as
    /// recorded by the caller driving the engine.
    pub fn full_render_duration(&self) -> (r: u64)
        ensures
            r == self.render_duration_nanos,
    {
        self.render_duration_nanos
    }

    /// Records the wall-clock duration of a render pass.
    pub fn record_render_duration(&mut self, nanos: u64)
        ensures
            *final(self) == (SoundContext { render_duration_nanos: nanos, ..*old(self) }),
    {
        self.render_duration_nanos = nanos;
    }

    /// Pauses or resumes the whole context.
    pub fn pause(&mut self, paused: bool)
        ensures
            *final(self) == (SoundContext { paused, ..*old(self) }),
    {
        self.paused = paused;
    }

    /// Adds a sound source and returns the handle to reach it later.
    pub fn add_source(&mut self, source: SoundSource) -> (h: Handle)
        requires
            old(self).wf(),
            source.wf(),
        ensures
            final(self).wf(),
            final(self).sources.valid(h),
            final(self).sources.at(h) == source,
            !old(self).sources.valid(h),
            forall|h2: Handle|
                h2 != h ==> (#[trigger] final(self).sources.valid(h2) <==> old(
                    self,
                ).sources.valid(h2)),
            forall|h2: Handle|
                h2 != h && old(self).sources.valid(h2) ==> #[trigger] final(self).sources.at(h2)
                    == old(self).sources.at(h2),
            final(self).bus_graph == old(self).bus_graph,
            final(self).listener == old(self).listener,
            final(self).paused == old(self).paused,
    {
        self.sources.spawn(source)
    }

    /// Removes a sound source; its handle is invalid from here on. An
    /// invalid handle changes nothing.
    pub fn remove_source(&mut self, handle: Handle) -> (r: Option<SoundSource>)
        requires
            old(self).wf(),
        ensures
            final(self).wf(),
            !final(self).sources.valid(handle),
            old(self).sources.valid(handle) ==> r == Some(old(self).sources.at(handle)),
            !old(self).sources.valid(handle) ==> r is None,
            forall|h2: Handle|
                h2 != handle ==> (#[trigger] final(self).sources.valid(h2) <==> old(
                    self,
                ).sources.valid(h2)),
            forall|h2: Handle|
                h2 != handle && old(self).sources.valid(h2) ==> #[trigger] final(self).sources.at(
                    h2,
                ) == old(self).sources.at(h2),
            final(self).bus_graph == old(self).bus_graph,
            final(self).listener == old(self).listener,
            final(self).paused == old(self).paused,
    {
        self.sources.free(handle)
    }

    /// Shared access to the source pool.
    pub fn sources(&self) -> (r: &Pool<SoundSource>)
        ensures
            r == &self.sources,
    {
        &self.sources
    }

    /// Exclusive access to the source pool.
    pub fn sources_mut(&mut self) -> (r: &mut Pool<SoundSource>)
        ensures
            *r == old(self).sources,
            *final(self) == (SoundContext { sources: *final(r), ..*old(self) }),
    {
        &mut self.sources
    }

    /// Tells whether a source handle is still valid.
    pub fn is_valid_handle(&self, handle: Handle) -> (r: bool)
        ensures
            r == self.sources.valid(handle),
    {
        self.sources.is_valid_handle(handle)
    }

    /// Shared access to the source behind a valid handle.
    pub fn source(&self, handle: Handle) -> (r: &SoundSource)
        requires
            self.sources.valid(handle),
        ensures
            *r == self.sources.at(handle),
    {
        self.sources.borrow(handle)
    }

    /// Exclusive access to the source behind a valid handle.
    pub fn source_mut(&mut self, handle: Handle) -> (r: &mut SoundSource)
        requires
            old(self).wf(),
            old(self).sources.valid(handle),
        ensures
            *r == old(self).sources.at(handle),
            final(self).sources.valid(handle),
            final(self).sources.at(handle) == *final(r),
            forall|h2: Handle|
                h2 != handle ==> (#[trigger] final(self).sources.valid(h2) <==> old(
                    self,
                ).sources.valid(h2)),
            forall|h2: Handle|
                h2 != handle && old(self).sources.valid(h2) ==> #[trigger] final(self).sources.at(
                    h2,
                ) == old(self).sources.at(h2),
            final(self).sources.wf(),
            final(self).bus_graph == old(self).bus_graph,
            final(self).listener == old(self).listener,
            final(self).paused == old(self).paused,
            final(self).render_duration_nanos == old(self).render_duration_nanos,
            final(r).wf() ==> final(self).wf(),
    {
        self.sources.borrow_mut(handle)
    }

    /// Exclusive access to a source, or `None` for an invalid handle.
    pub fn try_get_source_mut(&mut self, handle: Handle) -> (r: Option<&mut SoundSource>)
        requires
            old(self).wf(),
        ensures
            final(self).sources.wf(),
            final(self).bus_graph == old(self).bus_graph,
            final(self).listener == old(self).listener,
            final(self).paused == old(self).paused,
            match r {
                Some(v) => {
                    &&& old(self).sources.valid(handle)
                    &&& *v == old(self).sources.at(handle)
                    &&& final(self).sources.valid(handle)
                    &&& final(self).sources.at(handle) == *final(v)
                    &&& (final(v).wf() ==> final(self).wf())
                },
                None => !old(self).sources.valid(handle) && *final(self) == *old(self),
            },
            forall|h2: Handle|
                h2 != handle ==> (#[trigger] final(self).sources.valid(h2) <==> old(
                    self,
                ).sources.valid(h2)),
            forall|h2: Handle|
                h2 != handle && old(self).sources.valid(h2) ==> #[trigger] final(self).sources.at(
                    h2,
                ) == old(self).sources.at(h2),
    {
        self.sources.try_borrow_mut(handle)
    }

    /// Shared access to the bus graph.
    pub fn bus_graph_ref(&self) -> (r: &AudioBusGraph)
        ensures
            r == &self.bus_graph,
    {
        &self.bus_graph
    }

    /// Exclusive access to the bus graph.
    pub fn bus_graph_mut(&mut self) -> (r: &mut AudioBusGraph)
        ensures
            *r == old(self).bus_graph,
            *final(self) == (SoundContext { bus_graph: *final(r), ..*old(self) }),
    {
        &mut self.bus_graph
    }

    /// Exclusive access to the listener.
    pub fn listener_mut(&mut self) -> (r: &mut Listener)
        ensures
            *r == old(self).listener,
            *final(self) == (SoundContext { listener: *final(r), ..*old(self) }),
    {
        &mut self.listener
    }

    /// Renders one output block. The output is zeroed first; a paused
    /// context leaves it silent and changes nothing else. Otherwise the
    /// pass purges every source that has played once and stopped, opens
    /// the bus graph with zeroed per-bus blocks, mixes each playing
    /// source — with click-free gains — into the bus its name routes to
    /// (a missing bus silently drops that source's audio), and closes
    /// the graph bottom-up into the output.
    pub fn render(&mut self, output: &mut Vec<StereoSample>)
        requires
            old(self).wf(),
        ensures
            final(self).wf(),
            final(output)@.len() == old(output)@.len(),
            final(self).listener == old(self).listener,
            final(self).paused == old(self).paused,
            final(self).render_duration_nanos == old(self).render_duration_nanos,
            old(self).paused ==> final(output)@ == zero_frames(old(output)@.len()) && *final(self)
                == *old(self),
            !old(self).paused ==> ({
                let len = old(output)@.len();
                let g0 = old(self).bus_graph;
                let zeros_in = Seq::new(g0.bus_count(), |b: int| zero_frames(len));
                let mixed = mixed_inputs(
                    old(self).sources,
                    g0,
                    old(self).listener,
                    zeros_in,
                    len,
                    0,
                );
                let fin = crate::bus::drained(
                    mixed,
                    g0.parents_seq(),
                    g0.effects_seq(),
                    g0.bus_count() as int - 1,
                );
                &&& final(output)@ == process_block(g0.effects_of(0), fin[0])
                &&& final(self).bus_graph.bus_count() == g0.bus_count()
                &&& (forall|b: int|
                    0 <= b < g0.bus_count() ==> #[trigger] final(self).bus_graph.name_of(b)
                        == g0.name_of(b))
                &&& (forall|b: int|
                    0 <= b < g0.bus_count() ==> #[trigger] final(self).bus_graph.effects_of(b)
                        == g0.effects_of(b))
                &&& (forall|b: int|
                    0 <= b < g0.bus_count() ==> #[trigger] final(self).bus_graph.parent_of(b)
                        == g0.parent_of(b))
                &&& (forall|b: int|
                    0 <= b < g0.bus_count() ==> #[trigger] final(self).bus_graph.input_of(b)
                        == fin[b])
                &&& final(self).sources.slot_count() == old(self).sources.slot_count()
                &&& (forall|j: int|
                    0 <= j < old(self).sources.slot_count() ==> #[trigger] slot_outcome(
                        old(self).sources,
                        final(self).sources,
                        g0,
                        old(self).listener,
                        len,
                        j,
                    ))
            }),
    {
        let block_len = output.len();
        let zeros = zero_block(block_len);
        *output = zeros;
        if self.paused {
            return ;
        }
        let ghost p0 = self.sources;
        let ghost g0 = self.bus_graph;
        let ghost lst = self.listener;
        let ghost len_g = block_len as nat;
        let n0 = self.sources.total_slot_count();
        proof {
            assert(p0.slot_count() == n0 as nat);
        }
        let keep_fn = |s: &SoundSource| -> (keep: bool)
            ensures
                keep == !(s.play_once && s.status is Stopped),
            {
                !(s.play_once && (match s.status {
                    Status::Stopped => true,
                    _ => false,
                }))
            };
        self.sources.retain(keep_fn);
        let ghost p1 = self.sources;
        proof {
            assert(p0.slot_count() <= usize::MAX);
            assert forall|j: int| 0 <= j < p0.slot_count() implies #[trigger] purged_slot(
                p0,
                p1,
                j,
            ) by {
                assert(j as usize == j);
                match p0.stored_at(j) {
                    Some(s) => {
                        let h0 = Handle { index: j as usize, generation: p0.gen_at(j) };
                        assert(p0.valid(h0));
                        if s.play_once && s.status is Stopped {
                            if p1.stored_at(j) is Some {
                                let h1 = Handle { index: j as usize, generation: p1.gen_at(j) };
                                assert(p1.valid(h1));
                                assert(keep_fn.ensures((&p0.at(h1),), true));
                                assert(false);
                            }
                        } else {
                            assert(p0.at(h0) == s);
                            assert(!keep_fn.ensures((&s,), false));
                            assert(p1.valid(h0));
                            assert(p1.at(h0) == s);
                        }
                    },
                    None => {
                        if p1.stored_at(j) is Some {
                            let h1 = Handle { index: j as usize, generation: p1.gen_at(j) };
                            assert(p1.valid(h1));
                            assert(p0.valid(h1));
                            assert(false);
                        }
                    },
                }
            }
        }
        self.bus_graph.begin_render(block_len);
        let ghost zeros_in = Seq::new(g0.bus_count(), |b: int| zero_frames(len_g));
        proof {
            assert(self.bus_graph.inputs_seq() =~= zeros_in);
        }
        let n_slots = self.sources.total_slot_count();
        for i in 0..n_slots
            invariant
                old(self).wf(),
                p0 == old(self).sources,
                g0 == old(self).bus_graph,
                lst == old(self).listener,
                lst.wf(),
                g0.wf(),
                len_g == block_len as nat,
                zeros_in == Seq::new(g0.bus_count(), |b: int| zero_frames(len_g)),
                self.listener == lst,
                self.paused == old(self).paused,
                self.render_duration_nanos == old(self).render_duration_nanos,
                n_slots == p1.slot_count(),
                p1.slot_count() == p0.slot_count(),
                self.sources.slot_count() == p1.slot_count(),
                self.sources.wf(),
                forall|h: Handle|
                    self.sources.valid(h) ==> (#[trigger] self.sources.at(h)).wf(),
                self.bus_graph.wf(),
                self.bus_graph.bus_count() == g0.bus_count(),
                forall|b: int|
                    0 <= b < g0.bus_count() ==> #[trigger] self.bus_graph.name_of(b) == g0.name_of(
                        b,
                    ),
                forall|b: int|
                    0 <= b < g0.bus_count() ==> #[trigger] self.bus_graph.effects_of(b)
                        == g0.effects_of(b),
                forall|b: int|
                    0 <= b < g0.bus_count() ==> #[trigger] self.bus_graph.parent_of(b)
                        == g0.parent_of(b),
                forall|j: int| 0 <= j < p0.slot_count() ==> #[trigger] purged_slot(p0, p1, j),
                forall|j: int|
                    i <= j < p1.slot_count() ==> #[trigger] self.sources.stored_at(j)
                        == p1.stored_at(j) && (p1.stored_at(j) is Some ==> self.sources.gen_at(j)
                        == p1.gen_at(j)),
                forall|j: int|
                    0 <= j < i ==> #[trigger] slot_outcome(p0, self.sources, g0, lst, len_g, j),
                mixed_inputs(p0, g0, lst, self.bus_graph.inputs_seq(), len_g, i as int)
                    == mixed_inputs(p0, g0, lst, zeros_in, len_g, 0),
        {
            let maybe_h = self.sources.handle_at_index(i);
            match maybe_h {
                Some(h) => {
                    let playing = match self.sources.borrow(h).status {
                        Status::Playing => true,
                        _ => false,
                    };
                    if playing {
                        let bus_name = self.sources.borrow(h).bus.clone();
                        let found = self.bus_graph.find_bus_index(&bus_name);
                        match found {
                            Some(target) => {
                                let ghost s1 = self.sources.at(h);
                                let ghost pool_pre = self.sources;
                                let ghost inputs_pre = self.bus_graph.inputs_seq();
                                proof {
                                    assert(purged_slot(p0, p1, i as int));
                                    assert(p0.stored_at(i as int) == Some(s1));
                                    lemma_find_same(g0, self.bus_graph, bus_name@, 0);
                                    assert(g0.find_bus(s1.bus@) == Some(target as int));
                                    lemma_render_result_len(s1, len_g);
                                }
                                let src = self.sources.borrow_mut(h);
                                src.render(block_len);
                                let ghost s_mid = *src;
                                let mut buf = zero_block(block_len);
                                render_source_default(src, &self.listener, &mut buf);
                                let ghost s_done = *src;
                                proof {
                                    assert(left_gain_spec(s_mid, lst) == left_gain_spec(s1, lst));
                                    assert(right_gain_spec(s_mid, lst) == right_gain_spec(
                                        s1,
                                        lst,
                                    ));
                                    assert(renders_to(s1, s_done, lst, len_g));
                                    assert(buf@ =~= source_mix_frames(s1, lst, len_g)) by {
                                        let gf = source_mix_frames(s1, lst, len_g);
                                        assert(gf.len() == len_g);
                                        assert forall|k: int| 0 <= k < len_g implies buf@[k]
                                            == gf[k] by {
                                            assert(buf@[k] == add_gained(
                                                zero_frames(len_g)[k],
                                                gf[k],
                                            ));
                                        }
                                    }
                                }
                                let mixed_ok = self.bus_graph.mix_into_bus(&bus_name, &buf);
                                proof {
                                    crate::pool::lemma_handle_frame_to_slots(pool_pre, self.sources, h);
                                    assert(self.sources.stored_at(i as int) == Some(s_done));
                                    assert(slot_outcome(p0, self.sources, g0, lst, len_g, i as int));
                                    assert forall|j: int|
                                        0 <= j < i implies #[trigger] slot_outcome(
                                        p0,
                                        self.sources,
                                        g0,
                                        lst,
                                        len_g,
                                        j,
                                    ) by {
                                        assert(slot_outcome(p0, pool_pre, g0, lst, len_g, j));
                                        assert(self.sources.stored_at(j) == pool_pre.stored_at(j));
                                    }
                                    assert(mixed_ok);
                                    assert(self.bus_graph.inputs_seq() =~= inputs_pre.update(
                                        target as int,
                                        mix_blocks(
                                            inputs_pre[target as int],
                                            source_mix_frames(s1, lst, len_g),
                                        ),
                                    ));
                                    assert(mixed_inputs(
                                        p0,
                                        g0,
                                        lst,
                                        inputs_pre,
                                        len_g,
                                        i as int,
                                    ) == mixed_inputs(
                                        p0,
                                        g0,
                                        lst,
                                        self.bus_graph.inputs_seq(),
                                        len_g,
                                        i as int + 1,
                                    ));
                                }
                            },
                            None => {
                                proof {
                                    assert(purged_slot(p0, p1, i as int));
                                    let s1 = self.sources.at(h);
                                    assert(p0.stored_at(i as int) == Some(s1));
                                    lemma_find_same(g0, self.bus_graph, bus_name@, 0);
                                    assert(g0.find_bus(s1.bus@) is None);
                                    assert(slot_outcome(p0, self.sources, g0, lst, len_g, i as int));
                                }
                            },
                        }
                    } else {
                        proof {
                            assert(purged_slot(p0, p1, i as int));
                            let s1 = self.sources.at(h);
                            assert(p0.stored_at(i as int) == Some(s1));
                            assert(!(s1.status is Playing));
                            assert(slot_outcome(p0, self.sources, g0, lst, len_g, i as int));
                        }
                    }
                },
                None => {
                    proof {
                        assert(purged_slot(p0, p1, i as int));
                        assert(slot_outcome(p0, self.sources, g0, lst, len_g, i as int));
                        match p0.stored_at(i as int) {
                            Some(s) => {
                                assert(s.play_once && s.status is Stopped);
                                assert(!(s.status is Playing));
                            },
                            None => {},
                        }
                    }
                },
            }
        }
        let ghost mixed = mixed_inputs(p0, g0, lst, zeros_in, len_g, 0);
        proof {
            assert(self.bus_graph.inputs_seq() == mixed);
            lemma_mixed_inputs_lens(p0, g0, lst, zeros_in, len_g, 0, len_g);
        }
        let ghost g2 = self.bus_graph;
        self.bus_graph.end_render(output);
        proof {
            assert(g2.parents_seq() =~= g0.parents_seq());
            assert(g2.effects_seq() =~= g0.effects_seq());
            assert(g2.inputs_seq() == mixed);
            let fin = crate::bus::drained(
                mixed,
                g0.parents_seq(),
                g0.effects_seq(),
                g0.bus_count() as int - 1,
            );
            assert forall|j: int| 1 <= j < g0.bus_count() implies 0 <= #[trigger] g0.parents_seq()[j]
                < j by {
                assert(g0.parents_seq()[j] == g0.parent_of(j));
            }
            lemma_drained_lens(
                mixed,
                g0.parents_seq(),
                g0.effects_seq(),
                g0.bus_count() as int - 1,
                len_g,
            );
            assert(final(output)@.len() == fin[0].len());
        }
    }
}

impl Default for SoundContext {
    /// The same fresh context `new` builds.
    fn default() -> (c: Self)
        ensures
            c.wf(),
            c.sources.slot_count() == 0,
            c.bus_graph.bus_count() == 1,
            c.bus_graph.name_of(0) == "Master"@,
            !c.paused,
    {
        SoundContext::new()
    }
}

} // verus!
