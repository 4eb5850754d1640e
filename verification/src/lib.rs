//! A real-time audio mixing core, verified with Verus.
//!
//! Sound amplitudes, gains and playback positions are fixed-point numbers:
//! a value `v` stands for the real number `v / 65536` (Q16.16). All sample
//! arithmetic saturates at the `i64` range instead of overflowing, and every
//! operation's result is pinned down exactly by its contract.

use vstd::prelude::*;

pub mod buffer;
pub mod listener;
pub mod bus;
pub mod delay;
pub mod engine;
pub mod source;
pub mod wav;
pub mod pool;
pub mod sample;

verus! {

/// Sampling rate of the output device, in frames per second.
pub const SAMPLE_RATE: u32 = 44100;

/// Number of stereo frames rendered per output block.
pub const SAMPLES_PER_CHANNEL: usize = 513 * 4;

/// The ways a control-plane operation can fail. Rendering itself never
/// fails: a source routed to a missing bus is silently skipped.
#[derive(Clone, Copy, PartialEq, Eq, Structural, Debug)]
pub enum SoundError {
    /// A buffer was built with a channel count outside {1, 2}, or with a
    /// sample count that is not a multiple of the channel count.
    InvalidBuffer,
    /// A handle's generation does not match its slot, or the slot is free.
    InvalidHandle,
}

} // verus!
