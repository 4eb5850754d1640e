//! Named mix buses forming a tree rooted at the primary bus.
//!
//! Each bus owns an ordered effect chain and, during a render pass, one
//! scratch input buffer sized to the block. Sources add their frames into
//! a bus's input; `end_render` then mixes bottom-up: every bus applies its
//! effect chain to its accumulated input and adds the result into its
//! parent's input, and the processed primary input becomes the output
//! block. Buses are stored in insertion order with every parent before its
//! children, so the graph is a tree by construction and the bottom-up pass
//! is a single reverse sweep.

use vstd::prelude::*;

use crate::sample::{sat64, scale_spec};
use crate::source::{zero_frames, StereoSample};
use crate::SoundError;

verus! {

/// An effect that scales both channels by a fixed nonnegative gain.
#[derive(Clone, Copy, PartialEq, Eq, Structural, Debug)]
pub struct Attenuate {
    pub gain: u64,
}

impl Attenuate {
    /// A gain effect; a negative gain is clamped to silence.
    pub fn new(gain: i64) -> (r: Attenuate)
        ensures
            r.gain == (if gain < 0 {
                0
            } else {
                gain as u64
            }),
    {
        Attenuate { gain: if gain < 0 {
            0
        } else {
            gain as u64
        } }
    }
}

/// A sound effect in a bus's chain.
#[derive(Clone, Copy, PartialEq, Eq, Structural, Debug)]
pub enum Effect {
    Attenuate(Attenuate),
}

/// The exact result of one effect on one frame.
pub open spec fn apply_effect_spec(e: Effect, fr: StereoSample) -> StereoSample {
    match e {
        Effect::Attenuate(a) => StereoSample {
            left: sat64(scale_spec(fr.left as int, a.gain as int)) as i64,
            right: sat64(scale_spec(fr.right as int, a.gain as int)) as i64,
        },
    }
}

/// A whole effect chain applied to one frame, first effect first.
pub open spec fn process_frame(effects: Seq<Effect>, fr: StereoSample) -> StereoSample
    decreases effects.len(),
{
    if effects.len() == 0 {
        fr
    } else {
        process_frame(effects.drop_first(), apply_effect_spec(effects.first(), fr))
    }
}

/// An effect chain applied to every frame of a block.
pub open spec fn process_block(effects: Seq<Effect>, frames: Seq<StereoSample>) -> Seq<
    StereoSample,
> {
    Seq::new(frames.len(), |i: int| process_frame(effects, frames[i]))
}

/// Two frames added channel-wise, saturating.
pub open spec fn add_frames(a: StereoSample, b: StereoSample) -> StereoSample {
    StereoSample {
        left: sat64(a.left + b.left) as i64,
        right: sat64(a.right + b.right) as i64,
    }
}

/// `addend` added frame-wise into `acc`; frames past the end of either
/// block are left as they are in `acc`.
pub open spec fn mix_blocks(acc: Seq<StereoSample>, addend: Seq<StereoSample>) -> Seq<
    StereoSample,
> {
    Seq::new(
        acc.len(),
        |i: int|
            if i < addend.len() {
                add_frames(acc[i], addend[i])
            } else {
                acc[i]
            },
    )
}

impl Effect {
    /// Applies the effect to one frame.
    pub fn apply(&self, fr: StereoSample) -> (r: StereoSample)
        ensures
            r == apply_effect_spec(*self, fr),
    {
        match self {
            Effect::Attenuate(a) => StereoSample {
                left: crate::sample::scale(fr.left, a.gain),
                right: crate::sample::scale(fr.right, a.gain),
            },
        }
    }
}

/// A named mix node with an ordered effect chain.
pub struct AudioBus {
    pub name: String,
    pub effects: Vec<Effect>,
}

impl AudioBus {
    /// An effect-less bus with the given name.
    pub fn new(name: String) -> (r: AudioBus)
        ensures
            r.name == name,
            r.effects@ == Seq::<Effect>::empty(),
    {
        AudioBus { name, effects: Vec::new() }
    }

    /// Appends an effect to the chain.
    pub fn add_effect(&mut self, effect: Effect)
        ensures
            final(self).name == old(self).name,
            final(self).effects@ == old(self).effects@.push(effect),
    {
        self.effects.push(effect);
    }
}

/// A reference to a bus in its graph. Buses are never removed, so a plain
/// index suffices.
#[derive(Clone, Copy, PartialEq, Eq, Structural, Debug)]
pub struct BusHandle {
    pub index: usize,
}

struct BusNode {
    bus: AudioBus,
    parent: usize,
    input: Vec<StereoSample>,
}

/// `n` frames of silence as a fresh block.
pub fn zero_block(len: usize) -> (v: Vec<StereoSample>)
    ensures
        v@ == zero_frames(len as nat),
{
    let mut v: Vec<StereoSample> = Vec::new();
    while v.len() < len
        invariant
            v@.len() <= len,
            v@ == zero_frames(v@.len() as nat),
        decreases len - v@.len(),
    {
        v.push(StereoSample { left: 0, right: 0 });
        proof {
            assert(v@ =~= zero_frames(v@.len() as nat));
        }
    }
    v
}

/// One bottom-up mixing step: bus `i`'s input, processed by its effect
/// chain, is added into its parent's input.
pub open spec fn drain_step(
    inputs: Seq<Seq<StereoSample>>,
    parents: Seq<int>,
    effects: Seq<Seq<Effect>>,
    i: int,
) -> Seq<Seq<StereoSample>> {
    inputs.update(parents[i], mix_blocks(inputs[parents[i]], process_block(effects[i], inputs[i])))
}

/// The bus inputs after mixing buses `i` down to 1 into their parents,
/// in that order.
pub open spec fn drained(
    inputs: Seq<Seq<StereoSample>>,
    parents: Seq<int>,
    effects: Seq<Seq<Effect>>,
    i: int,
) -> Seq<Seq<StereoSample>>
    decreases i,
{
    if i <= 0 {
        inputs
    } else {
        drained(drain_step(inputs, parents, effects, i), parents, effects, i - 1)
    }
}

/// Applies a whole effect chain to a block, yielding a fresh block.
fn process_node_block(effects: &Vec<Effect>, input: &Vec<StereoSample>) -> (out: Vec<StereoSample>)
    ensures
        out@ == process_block(effects@, input@),
{
    let mut out: Vec<StereoSample> = Vec::new();
    let n = input.len();
    for k in 0..n
        invariant
            n == input@.len(),
            out@.len() == k,
            forall|j: int| 0 <= j < k ==> #[trigger] out@[j] == process_frame(effects@, input@[j]),
    {
        let mut fr = input[k];
        proof {
            assert(effects@.skip(0) =~= effects@);
        }
        let m = effects.len();
        for j in 0..m
            invariant
                m == effects@.len(),
                k < n,
                n == input@.len(),
                process_frame(effects@.skip(j as int), fr) == process_frame(
                    effects@,
                    input@[k as int],
                ),
        {
            fr = effects[j].apply(fr);
            proof {
                assert(effects@.skip(j as int).first() == effects@[j as int]);
                assert(effects@.skip(j as int).drop_first() =~= effects@.skip(j as int + 1));
            }
        }
        proof {
            assert(effects@.skip(m as int) =~= Seq::<Effect>::empty());
        }
        out.push(fr);
    }
    proof {
        assert(out@ =~= process_block(effects@, input@));
    }
    out
}

/// The tree of buses, rooted at the primary bus at index 0.
pub struct AudioBusGraph {
    nodes: Vec<BusNode>,
}

impl AudioBusGraph {
    /// The name of the always-present primary bus.
    pub fn primary_bus_name() -> (r: &'static str)
        ensures
            r@ == "Master"@,
    {
        "Master"
    }

    /// Number of buses in the graph.
    pub closed spec fn bus_count(&self) -> nat {
        self.nodes@.len()
    }

    /// The name of bus `i`.
    pub closed spec fn name_of(&self, i: int) -> Seq<char> {
        self.nodes@[i].bus.name@
    }

    /// The index of bus `i`'s parent (the primary bus is its own parent).
    pub closed spec fn parent_of(&self, i: int) -> int {
        self.nodes@[i].parent as int
    }

    /// The effect chain of bus `i`.
    pub closed spec fn effects_of(&self, i: int) -> Seq<Effect> {
        self.nodes@[i].bus.effects@
    }

    /// The scratch input block of bus `i`.
    pub closed spec fn input_of(&self, i: int) -> Seq<StereoSample> {
        self.nodes@[i].input@
    }

    /// The tree shape: at least the primary bus, which is its own parent,
    /// and every other bus's parent stands before it. Cycles are therefore
    /// impossible.
    pub open spec fn wf(&self) -> bool {
        &&& self.bus_count() >= 1
        &&& self.parent_of(0) == 0
        &&& forall|i: int| 1 <= i < self.bus_count() ==> 0 <= #[trigger] self.parent_of(i) < i
    }

    /// The first bus with the given name, searching from index `i`.
    pub open spec fn find_from(&self, name: Seq<char>, i: int) -> Option<int>
        decreases self.bus_count() - i,
    {
        if i < 0 || i >= self.bus_count() {
            None
        } else if self.name_of(i) == name {
            Some(i)
        } else {
            self.find_from(name, i + 1)
        }
    }

    /// The first bus with the given name, if any.
    pub open spec fn find_bus(&self, name: Seq<char>) -> Option<int> {
        self.find_from(name, 0)
    }

    /// A fresh graph holding only the primary bus.
    pub fn new() -> (g: AudioBusGraph)
        ensures
            g.wf(),
            g.bus_count() == 1,
            g.name_of(0) == "Master"@,
            g.effects_of(0) == Seq::<Effect>::empty(),
            g.input_of(0) == Seq::<StereoSample>::empty(),
    {
        let mut nodes: Vec<BusNode> = Vec::new();
        nodes.push(
            BusNode {
                bus: AudioBus::new(String::from_str(Self::primary_bus_name())),
                parent: 0,
                input: Vec::new(),
            },
        );
        AudioBusGraph { nodes }
    }

    /// The handle of the primary (master) bus, which always exists.
    pub fn primary_bus_handle(&self) -> (h: BusHandle)
        ensures
            h.index == 0,
    {
        BusHandle { index: 0 }
    }

    /// Attaches `bus` under an existing parent and returns its handle.
    /// An invalid parent handle is rejected and leaves the graph
    /// unchanged. Because the new bus is appended after its parent, the
    /// graph stays a tree: a cycle would need some bus to stand before
    /// its parent.
    pub fn add_bus(&mut self, bus: AudioBus, parent: BusHandle) -> (r: Result<
        BusHandle,
        SoundError,
    >)
        requires
            old(self).wf(),
        ensures
            final(self).wf(),
            parent.index < old(self).bus_count() ==> {
                &&& r == Ok::<BusHandle, SoundError>(BusHandle {
                    index: old(self).bus_count() as usize,
                })
                &&& final(self).bus_count() == old(self).bus_count() + 1
                &&& final(self).name_of(old(self).bus_count() as int) == bus.name@
                &&& final(self).effects_of(old(self).bus_count() as int) == bus.effects@
                &&& final(self).parent_of(old(self).bus_count() as int) == parent.index as int
                &&& final(self).input_of(old(self).bus_count() as int) == Seq::<
                    StereoSample,
                >::empty()
                &&& (forall|i: int|
                    0 <= i < old(self).bus_count() ==> #[trigger] final(self).name_of(i) == old(
                        self,
                    ).name_of(i))
                &&& (forall|i: int|
                    0 <= i < old(self).bus_count() ==> #[trigger] final(self).effects_of(i)
                        == old(self).effects_of(i))
                &&& (forall|i: int|
                    0 <= i < old(self).bus_count() ==> #[trigger] final(self).parent_of(i) == old(
                        self,
                    ).parent_of(i))
                &&& (forall|i: int|
                    0 <= i < old(self).bus_count() ==> #[trigger] final(self).input_of(i) == old(
                        self,
                    ).input_of(i))
            },
            parent.index >= old(self).bus_count() ==> r == Err::<BusHandle, SoundError>(
                SoundError::InvalidHandle,
            ) && *final(self) == *old(self),
    {
        if parent.index >= self.nodes.len() {
            return Err(SoundError::InvalidHandle);
        }
        let index = self.nodes.len();
        self.nodes.push(BusNode { bus, parent: parent.index, input: Vec::new() });
        proof {
            assert forall|i: int| 1 <= i < self.nodes@.len() implies 0 <= #[trigger] self.parent_of(i)
                < i by {
                if i < self.nodes@.len() - 1 {
                    assert(self.nodes@[i] == old(self).nodes@[i]);
                    assert(0 <= old(self).parent_of(i) < i);
                } else {
                    assert(self.nodes@[i].parent == parent.index);
                }
            }
            assert(self.nodes@[0] == old(self).nodes@[0]);
            assert(self.wf());
        }
        Ok(BusHandle { index })
    }

    /// Gives every bus a zeroed scratch input block of the given length,
    /// opening a render pass.
    pub fn begin_render(&mut self, block_len: usize)
        requires
            old(self).wf(),
        ensures
            final(self).wf(),
            final(self).bus_count() == old(self).bus_count(),
            forall|i: int|
                0 <= i < old(self).bus_count() ==> #[trigger] final(self).name_of(i) == old(
                    self,
                ).name_of(i),
            forall|i: int|
                0 <= i < old(self).bus_count() ==> #[trigger] final(self).effects_of(i) == old(
                    self,
                ).effects_of(i),
            forall|i: int|
                0 <= i < old(self).bus_count() ==> #[trigger] final(self).parent_of(i) == old(
                    self,
                ).parent_of(i),
            forall|i: int|
                0 <= i < old(self).bus_count() ==> #[trigger] final(self).input_of(i)
                    == zero_frames(block_len as nat),
    {
        let n = self.nodes.len();
        for i in 0..n
            invariant
                n == self.nodes@.len(),
                n == old(self).bus_count(),
                forall|j: int|
                    0 <= j < n ==> #[trigger] self.nodes@[j].bus == old(self).nodes@[j].bus,
                forall|j: int|
                    0 <= j < n ==> #[trigger] self.nodes@[j].parent == old(self).nodes@[j].parent,
                forall|j: int|
                    0 <= j < i ==> #[trigger] self.nodes@[j].input@ == zero_frames(
                        block_len as nat,
                    ),
                forall|j: int|
                    i <= j < n ==> #[trigger] self.nodes@[j].input@ == old(self).nodes@[j].input@,
        {
            let block = zero_block(block_len);
            let node = &mut self.nodes[i];
            node.input = block;
        }
        proof {
            assert forall|i: int| 1 <= i < self.nodes@.len() implies 0 <= #[trigger] self.parent_of(i)
                < i by {
                assert(self.nodes@[i].parent == old(self).nodes@[i].parent);
                assert(0 <= old(self).parent_of(i) < i);
            }
            assert(self.nodes@[0].parent == old(self).nodes@[0].parent);
            assert(self.wf());
        }
    }

    /// Shared view of the scratch input block of the first bus with the
    /// given name, if one exists.
    pub fn try_get_bus_input_buffer(&self, name: &String) -> (r: Option<&Vec<StereoSample>>)
        ensures
            match r {
                Some(buf) => self.find_bus(name@) matches Some(i) && buf@ == self.input_of(i),
                None => self.find_bus(name@) is None,
            },
    {
        match self.find_bus_index(name) {
            Some(i) => Some(&self.nodes[i].input),
            None => None,
        }
    }

    /// The index of the first bus with the given name, if any.
    pub fn find_bus_index(&self, name: &String) -> (r: Option<usize>)
        ensures
            match r {
                Some(i) => self.find_bus(name@) == Some(i as int) && i < self.bus_count(),
                None => self.find_bus(name@) is None,
            },
    {
        let n = self.nodes.len();
        for i in 0..n
            invariant
                n == self.nodes@.len(),
                self.find_bus(name@) == self.find_from(name@, i as int),
        {
            if self.nodes[i].bus.name.eq(name) {
                return Some(i);
            }
        }
        None
    }

    /// Adds a source's frames into the named bus's input block,
    /// channel-wise and saturating. When no bus has that name nothing
    /// happens and the call reports it — misrouting is silent, not fatal.
    pub fn mix_into_bus(&mut self, name: &String, frames: &Vec<StereoSample>) -> (mixed: bool)
        requires
            old(self).wf(),
        ensures
            final(self).wf(),
            final(self).bus_count() == old(self).bus_count(),
            forall|i: int|
                0 <= i < old(self).bus_count() ==> #[trigger] final(self).name_of(i) == old(
                    self,
                ).name_of(i),
            forall|i: int|
                0 <= i < old(self).bus_count() ==> #[trigger] final(self).effects_of(i) == old(
                    self,
                ).effects_of(i),
            forall|i: int|
                0 <= i < old(self).bus_count() ==> #[trigger] final(self).parent_of(i) == old(
                    self,
                ).parent_of(i),
            mixed == (old(self).find_bus(name@) is Some),
            !mixed ==> *final(self) == *old(self),
            mixed ==> {
                let target = old(self).find_bus(name@).unwrap();
                &&& final(self).input_of(target) == mix_blocks(
                    old(self).input_of(target),
                    frames@,
                )
                &&& forall|i: int|
                    0 <= i < old(self).bus_count() && i != target ==> #[trigger] final(self).input_of(i) == old(self).input_of(i)
            },
    {
        let target = match self.find_bus_index(name) {
            Some(i) => i,
            None => {
                return false;
            },
        };
        self.add_into_input(target, frames);
        true
    }

    /// Adds `frames` into the input block of the bus at `target`,
    /// channel-wise and saturating.
    fn add_into_input(&mut self, target: usize, frames: &Vec<StereoSample>)
        requires
            old(self).wf(),
            target < old(self).bus_count(),
        ensures
            final(self).wf(),
            final(self).bus_count() == old(self).bus_count(),
            forall|i: int|
                0 <= i < old(self).bus_count() ==> #[trigger] final(self).name_of(i) == old(
                    self,
                ).name_of(i),
            forall|i: int|
                0 <= i < old(self).bus_count() ==> #[trigger] final(self).effects_of(i) == old(
                    self,
                ).effects_of(i),
            forall|i: int|
                0 <= i < old(self).bus_count() ==> #[trigger] final(self).parent_of(i) == old(
                    self,
                ).parent_of(i),
            final(self).input_of(target as int) == mix_blocks(
                old(self).input_of(target as int),
                frames@,
            ),
            forall|i: int|
                0 <= i < old(self).bus_count() && i != target ==> #[trigger] final(self).input_of(
                    i,
                ) == old(self).input_of(i),
    {
        let len = self.nodes[target].input.len();
        let m = frames.len();
        let count = if m < len {
            m
        } else {
            len
        };
        let ghost pre = self.nodes@[target as int].input@;
        for k in 0..count
            invariant
                target < self.nodes@.len(),
                count <= pre.len(),
                count <= frames@.len(),
                count == (if frames@.len() < pre.len() {
                    frames@.len()
                } else {
                    pre.len()
                }),
                self.nodes@.len() == old(self).nodes@.len(),
                forall|j: int|
                    0 <= j < self.nodes@.len() ==> #[trigger] self.nodes@[j].bus == old(
                        self,
                    ).nodes@[j].bus,
                forall|j: int|
                    0 <= j < self.nodes@.len() ==> #[trigger] self.nodes@[j].parent == old(
                        self,
                    ).nodes@[j].parent,
                forall|j: int|
                    0 <= j < self.nodes@.len() && j != target ==> #[trigger] self.nodes@[j].input@
                        == old(self).nodes@[j].input@,
                pre == old(self).nodes@[target as int].input@,
                self.nodes@[target as int].input@.len() == pre.len(),
                forall|j: int|
                    0 <= j < k ==> #[trigger] self.nodes@[target as int].input@[j] == add_frames(
                        pre[j],
                        frames@[j],
                    ),
                forall|j: int|
                    k <= j < pre.len() ==> #[trigger] self.nodes@[target as int].input@[j]
                        == pre[j],
        {
            let fr = frames[k];
            let node = &mut self.nodes[target];
            let acc = node.input[k];
            let summed = StereoSample {
                left: crate::sample::sat_add(acc.left, fr.left),
                right: crate::sample::sat_add(acc.right, fr.right),
            };
            node.input[k] = summed;
        }
        proof {
            assert(self.nodes@[target as int].input@ =~= mix_blocks(pre, frames@));
            assert forall|i: int| 1 <= i < self.nodes@.len() implies 0 <= #[trigger] self.parent_of(i)
                < i by {
                assert(self.nodes@[i].parent == old(self).nodes@[i].parent);
                assert(0 <= old(self).parent_of(i) < i);
            }
            assert(self.nodes@[0].parent == old(self).nodes@[0].parent);
            assert(self.wf());
        }
    }

    /// The inputs of all buses, as one sequence of blocks.
    pub open spec fn inputs_seq(&self) -> Seq<Seq<StereoSample>> {
        Seq::new(self.bus_count(), |i: int| self.input_of(i))
    }

    /// The parent links of all buses.
    pub open spec fn parents_seq(&self) -> Seq<int> {
        Seq::new(self.bus_count(), |i: int| self.parent_of(i))
    }

    /// The effect chains of all buses.
    pub open spec fn effects_seq(&self) -> Seq<Seq<Effect>> {
        Seq::new(self.bus_count(), |i: int| self.effects_of(i))
    }

    /// Closes a render pass: mixes every bus bottom-up into its parent —
    /// each bus's accumulated input processed by its own effect chain
    /// first — and fills `output` with the primary bus's processed input.
    pub fn end_render(&mut self, output: &mut Vec<StereoSample>)
        requires
            old(self).wf(),
        ensures
            final(self).wf(),
            final(self).bus_count() == old(self).bus_count(),
            forall|i: int|
                0 <= i < old(self).bus_count() ==> #[trigger] final(self).name_of(i) == old(
                    self,
                ).name_of(i),
            forall|i: int|
                0 <= i < old(self).bus_count() ==> #[trigger] final(self).effects_of(i) == old(
                    self,
                ).effects_of(i),
            forall|i: int|
                0 <= i < old(self).bus_count() ==> #[trigger] final(self).parent_of(i) == old(
                    self,
                ).parent_of(i),
            ({
                let fin = drained(
                    old(self).inputs_seq(),
                    old(self).parents_seq(),
                    old(self).effects_seq(),
                    old(self).bus_count() as int - 1,
                );
                &&& (forall|i: int|
                    0 <= i < old(self).bus_count() ==> #[trigger] final(self).input_of(i) == fin[i])
                &&& final(output)@ == process_block(old(self).effects_of(0), fin[0])
            }),
    {
        let n = self.nodes.len();
        let ghost pp = old(self).parents_seq();
        let ghost ee = old(self).effects_seq();
        let ghost fin = drained(old(self).inputs_seq(), pp, ee, n as int - 1);
        let mut i = n - 1;
        while i >= 1
            invariant
                self.wf(),
                n == self.nodes@.len(),
                n == old(self).bus_count(),
                i <= n - 1,
                pp == old(self).parents_seq(),
                ee == old(self).effects_seq(),
                fin == drained(old(self).inputs_seq(), pp, ee, n as int - 1),
                forall|j: int|
                    0 <= j < n ==> #[trigger] self.name_of(j) == old(self).name_of(j),
                forall|j: int|
                    0 <= j < n ==> #[trigger] self.effects_of(j) == old(self).effects_of(j),
                forall|j: int|
                    0 <= j < n ==> #[trigger] self.parent_of(j) == old(self).parent_of(j),
                drained(self.inputs_seq(), pp, ee, i as int) == fin,
            decreases i,
        {
            let ghost prev = self.inputs_seq();
            let node = &self.nodes[i];
            let processed = process_node_block(&node.bus.effects, &node.input);
            let parent = self.nodes[i].parent;
            proof {
                assert(0 <= self.parent_of(i as int) < i);
                assert(pp[i as int] == self.parent_of(i as int));
                assert(ee[i as int] == self.effects_of(i as int));
                assert(prev[i as int] == self.input_of(i as int));
                assert(prev[parent as int] == self.input_of(parent as int));
            }
            self.add_into_input(parent, &processed);
            proof {
                assert forall|j: int| 0 <= j < n implies #[trigger] self.inputs_seq()[j]
                    == drain_step(prev, pp, ee, i as int)[j] by {
                    if j == parent as int {
                        assert(self.input_of(j) == mix_blocks(
                            prev[j],
                            process_block(ee[i as int], prev[i as int]),
                        ));
                    } else {
                        assert(self.input_of(j) == prev[j]);
                    }
                }
                assert(self.inputs_seq() =~= drain_step(prev, pp, ee, i as int));
                assert(drained(self.inputs_seq(), pp, ee, i as int - 1) == drained(
                    prev,
                    pp,
                    ee,
                    i as int,
                ));
            }
            i = i - 1;
        }
        proof {
            assert(drained(self.inputs_seq(), pp, ee, 0) == self.inputs_seq());
            assert(self.inputs_seq() == fin);
            assert(self.input_of(0) == fin[0]);
            assert(self.effects_of(0) == old(self).effects_of(0));
        }
        let node = &self.nodes[0];
        let processed = process_node_block(&node.bus.effects, &node.input);
        *output = processed;
    }
}

} // verus!
