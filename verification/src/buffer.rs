//! An immutable in-memory PCM sample container.
//!
//! A `Buffer` holds interleaved fixed-point samples (mono: `L L ...`,
//! stereo: `L R L R ...`) together with its channel count and native
//! sampling rate. The constructor enforces the container invariant — one or
//! two channels, and a sample count that is a whole number of frames — so
//! every built buffer is well formed.

use vstd::prelude::*;

use crate::sample::{sat64, scale_spec};
use crate::SoundError;

verus! {

/// The absolute value of a sample, in unbounded integers.
pub open spec fn abs_val(x: int) -> int {
    if x < 0 {
        -x
    } else {
        x
    }
}

/// The largest absolute sample value in a sequence (0 when empty).
pub open spec fn peak_spec(s: Seq<i64>) -> int
    decreases s.len(),
{
    if s.len() == 0 {
        0
    } else if peak_spec(s.drop_last()) >= abs_val(s.last() as int) {
        peak_spec(s.drop_last())
    } else {
        abs_val(s.last() as int)
    }
}

/// The largest absolute sample value in `samples`, saturated into `i64`.
pub fn peak(samples: &[i64]) -> (r: i64)
    ensures
        r as int == sat64(peak_spec(samples@)),
{
    let mut best: i64 = 0;
    let n = samples.len();
    for i in 0..n
        invariant
            n == samples@.len(),
            best as int == sat64(peak_spec(samples@.take(i as int))),
            best >= 0,
    {
        let s = samples[i];
        let a: i64 = if s == i64::MIN {
            i64::MAX
        } else if s < 0 {
            -s
        } else {
            s
        };
        proof {
            assert(samples@.take(i + 1).drop_last() =~= samples@.take(i as int));
            assert(samples@.take(i + 1).last() == samples@[i as int]);
        }
        if a > best {
            best = a;
        }
    }
    proof {
        assert(samples@.take(n as int) =~= samples@);
    }
    best
}

/// A well-formed, non-empty buffer holds at least one whole frame, and its
/// sample count is exactly frames times channels.
pub proof fn lemma_buffer_frames(b: &Buffer)
    requires
        b.wf(),
        b.spec_samples().len() > 0,
    ensures
        b.spec_frames() >= 1,
        b.spec_samples().len() == b.spec_frames() * b.spec_channels(),
{
    let len = b.spec_samples().len() as int;
    let cc = b.spec_channels();
    vstd::arithmetic::div_mod::lemma_fundamental_div_mod(len, cc);
    assert(len % cc == 0);
    assert(len == cc * (len / cc) + len % cc);
    assert(len == cc * (len / cc));
    if len / cc <= 0 {
        assert(len <= 0) by (nonlinear_arith)
            requires
                len == cc * (len / cc),
                cc >= 1,
                len / cc <= 0,
        ;
    }
    assert(len == (len / cc) * cc) by (nonlinear_arith)
        requires
            len == cc * (len / cc),
    ;
}

/// Interleaved PCM samples with format metadata.
pub struct Buffer {
    samples: Vec<i64>,
    channels: u16,
    sample_rate: u32,
}

impl Buffer {
    /// The stored interleaved samples.
    pub closed spec fn spec_samples(&self) -> Seq<i64> {
        self.samples@
    }

    /// The number of interleaved channels.
    pub closed spec fn spec_channels(&self) -> int {
        self.channels as int
    }

    /// The buffer's native sampling rate.
    pub closed spec fn spec_rate(&self) -> u32 {
        self.sample_rate
    }

    /// The container invariant: one or two channels, and whole frames only.
    pub open spec fn wf(&self) -> bool {
        &&& 1 <= self.spec_channels() <= 2
        &&& self.spec_samples().len() % (self.spec_channels() as nat) == 0
    }

    /// The number of frames, i.e. samples per channel.
    pub open spec fn spec_frames(&self) -> int {
        self.spec_samples().len() as int / self.spec_channels()
    }

    /// Builds a buffer, rejecting a channel count outside {1, 2} and a
    /// sample count that is not a multiple of the channel count.
    pub fn new(sample_rate: u32, channel_count: u16, samples: Vec<i64>) -> (r: Result<
        Buffer,
        SoundError,
    >)
        ensures
            r is Ok <==> (1 <= channel_count <= 2 && samples@.len() % (channel_count as nat) == 0),
            r is Err ==> r->Err_0 == SoundError::InvalidBuffer,
            r is Ok ==> {
                &&& r->Ok_0.wf()
                &&& r->Ok_0.spec_samples() == samples@
                &&& r->Ok_0.spec_channels() == channel_count as int
                &&& r->Ok_0.spec_rate() == sample_rate
            },
    {
        if channel_count < 1 || channel_count > 2 {
            return Err(SoundError::InvalidBuffer);
        }
        if samples.len() % (channel_count as usize) != 0 {
            return Err(SoundError::InvalidBuffer);
        }
        Ok(Buffer { samples, channels: channel_count, sample_rate })
    }

    /// The number of interleaved channels (1 or 2).
    pub fn channel_count(&self) -> (r: u16)
        ensures
            r as int == self.spec_channels(),
    {
        self.channels
    }

    /// The buffer's native sampling rate.
    pub fn sample_rate(&self) -> (r: u32)
        ensures
            r == self.spec_rate(),
    {
        self.sample_rate
    }

    /// Shared access to the interleaved samples.
    pub fn samples(&self) -> (r: &Vec<i64>)
        ensures
            r@ == self.spec_samples(),
    {
        &self.samples
    }

    /// The number of samples each channel holds.
    pub fn channel_duration_in_samples(&self) -> (r: usize)
        requires
            self.wf(),
        ensures
            r as int == self.spec_frames(),
    {
        self.samples.len() / (self.channels as usize)
    }

    /// The buffer's play time at its native rate, in nanoseconds,
    /// saturated into `u64` (zero when the rate is zero).
    pub fn duration(&self) -> (r: u64)
        requires
            self.wf(),
        ensures
            self.spec_rate() == 0 ==> r == 0,
            self.spec_rate() > 0 ==> r as int == crate::sample::sat_u64_spec(
                self.spec_frames() * 1_000_000_000 / (self.spec_rate() as int),
            ),
    {
        if self.sample_rate == 0 {
            return 0;
        }
        let frames = self.channel_duration_in_samples();
        let nanos: u128 = (frames as u128) * 1_000_000_000u128 / (self.sample_rate as u128);
        if nanos > u64::MAX as u128 {
            u64::MAX
        } else {
            nanos as u64
        }
    }

    /// Applies a function to every sample in place. The channel layout is
    /// untouched, so the result of a well-formed buffer is well formed.
    pub fn apply<F: Fn(i64) -> i64>(&mut self, f: F)
        requires
            forall|s: i64| #[trigger] f.requires((s,)),
        ensures
            final(self).spec_samples().len() == old(self).spec_samples().len(),
            final(self).spec_channels() == old(self).spec_channels(),
            final(self).spec_rate() == old(self).spec_rate(),
            forall|i: int|
                0 <= i < old(self).spec_samples().len() ==> f.ensures(
                    (old(self).spec_samples()[i],),
                    #[trigger] final(self).spec_samples()[i],
                ),
            old(self).wf() ==> final(self).wf(),
    {
        let n = self.samples.len();
        for i in 0..n
            invariant
                n == self.samples@.len(),
                self.samples@.len() == old(self).spec_samples().len(),
                self.channels == old(self).channels,
                self.sample_rate == old(self).sample_rate,
                forall|s: i64| #[trigger] f.requires((s,)),
                forall|j: int| i <= j < n ==> self.samples@[j] == old(self).spec_samples()[j],
                forall|j: int|
                    0 <= j < i ==> f.ensures(
                        (old(self).spec_samples()[j],),
                        #[trigger] self.samples@[j],
                    ),
        {
            let v = f(self.samples[i]);
            self.samples[i] = v;
        }
    }

    /// The weight `normalize` scales with: the fixed-point ratio of the
    /// target amplitude to the current peak, saturated into `u64`.
    pub open spec fn normalize_weight(target: int, pk: int) -> int {
        crate::sample::sat_u64_spec(target * (crate::sample::FRAC_ONE as int) / pk)
    }

    /// Scales every sample so the loudest one reaches `max_amplitude`
    /// (within fixed-point rounding). A silent buffer stays untouched.
    pub fn normalize(&mut self, max_amplitude: i64)
        requires
            max_amplitude >= 0,
        ensures
            final(self).spec_channels() == old(self).spec_channels(),
            final(self).spec_rate() == old(self).spec_rate(),
            final(self).spec_samples().len() == old(self).spec_samples().len(),
            peak_spec(old(self).spec_samples()) == 0 ==> final(self).spec_samples() == old(
                self,
            ).spec_samples(),
            peak_spec(old(self).spec_samples()) > 0 ==> forall|i: int|
                0 <= i < old(self).spec_samples().len() ==> (#[trigger] final(self).spec_samples()[i]) as int == sat64(
                    scale_spec(
                        old(self).spec_samples()[i] as int,
                        Self::normalize_weight(
                            max_amplitude as int,
                            sat64(peak_spec(old(self).spec_samples())),
                        ),
                    ),
                ),
            old(self).wf() ==> final(self).wf(),
    {
        let current_peak = peak(self.samples.as_slice());
        if current_peak == 0 {
            return ;
        }
        let wide: u128 = (max_amplitude as u128) * (crate::sample::FRAC_ONE as u128) / (
        current_peak as u128);
        let w: u64 = if wide > u64::MAX as u128 {
            u64::MAX
        } else {
            wide as u64
        };
        let n = self.samples.len();
        for i in 0..n
            invariant
                n == self.samples@.len(),
                self.samples@.len() == old(self).spec_samples().len(),
                self.channels == old(self).channels,
                self.sample_rate == old(self).sample_rate,
                current_peak as int == sat64(peak_spec(old(self).spec_samples())),
                current_peak > 0,
                w as int == Self::normalize_weight(max_amplitude as int, current_peak as int),
                forall|j: int| i <= j < n ==> self.samples@[j] == old(self).spec_samples()[j],
                forall|j: int|
                    0 <= j < i ==> (#[trigger] self.samples@[j]) as int == sat64(
                        scale_spec(old(self).spec_samples()[j] as int, w as int),
                    ),
        {
            let v = crate::sample::scale(self.samples[i], w);
            self.samples[i] = v;
        }
    }
}

} // verus!
