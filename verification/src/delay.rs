//! A fixed-length delay line.
//!
//! `process` emits the sample written `length` calls ago (zero until the
//! line has filled once) and stores the new input in its place, walking a
//! ring buffer.

use vstd::prelude::*;

verus! {

/// A ring buffer of samples with a moving write index.
pub struct Delay {
    buffer: Vec<i64>,
    index: usize,
}

impl Delay {
    /// The delay line's contents, oldest write position first.
    pub closed spec fn spec_buffer(&self) -> Seq<i64> {
        self.buffer@
    }

    /// The position the next sample is taken from and written to.
    pub closed spec fn spec_index(&self) -> int {
        self.index as int
    }

    /// The write index stays inside the buffer.
    pub open spec fn wf(&self) -> bool {
        &&& self.spec_buffer().len() > 0
        &&& 0 <= self.spec_index() < self.spec_buffer().len()
    }

    /// A silent delay line of `length` samples.
    pub fn new(length: usize) -> (d: Delay)
        requires
            length > 0,
        ensures
            d.wf(),
            d.spec_buffer() == Seq::new(length as nat, |i: int| 0i64),
            d.spec_index() == 0,
    {
        let mut buffer: Vec<i64> = Vec::new();
        while buffer.len() < length
            invariant
                buffer@.len() <= length,
                buffer@ == Seq::new(buffer@.len(), |i: int| 0i64),
            decreases length - buffer@.len(),
        {
            buffer.push(0);
            proof {
                assert(buffer@ =~= Seq::new(buffer@.len(), |i: int| 0i64));
            }
        }
        Delay { buffer, index: 0 }
    }

    /// Emits the stored sample at the current position, replaces it with
    /// `input`, and steps the position forward, wrapping at the end.
    pub fn process(&mut self, input: i64) -> (out: i64)
        requires
            old(self).wf(),
        ensures
            final(self).wf(),
            out == old(self).spec_buffer()[old(self).spec_index()],
            final(self).spec_buffer() == old(self).spec_buffer().update(
                old(self).spec_index(),
                input,
            ),
            final(self).spec_index() == (old(self).spec_index() + 1) % (
            old(self).spec_buffer().len() as int),
    {
        let n = self.buffer.len();
        let out = self.buffer[self.index];
        self.buffer[self.index] = input;
        self.index = (self.index + 1) % n;
        out
    }
}

} // verus!
