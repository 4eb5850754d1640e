//! A generational slot arena.
//!
//! A `Pool<T>` is a dense array of slots, each either free, occupied by a
//! value, or reserved by a ticket. A `Handle` names a slot by index together
//! with the generation the slot had when the handle was issued; freeing a
//! slot bumps its generation, so every old handle to it stays invalid even
//! when the slot is later reused. Free slots are kept on a free list and
//! reused before the array grows.

use vstd::prelude::*;

verus! {

/// A stable reference to a pool entry: a slot index paired with the
/// generation the slot had when the entry was created. A handle is valid
/// exactly while that entry is still in place.
#[derive(Clone, Copy, PartialEq, Eq, Structural, Debug)]
pub struct Handle {
    pub index: usize,
    pub generation: u64,
}

/// A reservation for a slot whose value was taken out with `take_reserve`.
/// While the ticket is outstanding the slot cannot be reused; `put_back`
/// restores a value under the original handle, `forget_ticket` releases the
/// slot for reuse.
pub struct Ticket {
    pub index: usize,
    pub generation: u64,
}

enum SlotState<T> {
    Free,
    Occupied(T),
    Reserved,
}

struct Slot<T> {
    generation: u64,
    state: SlotState<T>,
}

/// The generation a slot carries after it is released. The last generation
/// retires the slot instead of wrapping, so a handle can never be
/// revalidated by overflow.
pub open spec fn bumped(g: u64) -> u64 {
    if g < u64::MAX {
        (g + 1) as u64
    } else {
        g
    }
}

pub struct Pool<T> {
    slots: Vec<Slot<T>>,
    free_list: Vec<usize>,
}

impl<T> Pool<T> {
    /// Number of slots in the arena (occupied, reserved and free together).
    pub closed spec fn slot_count(&self) -> nat {
        self.slots@.len()
    }

    /// The generation currently stored in slot `i`.
    pub closed spec fn gen_at(&self, i: int) -> u64 {
        self.slots@[i].generation
    }

    /// The value stored in slot `i`, if the slot is occupied.
    pub closed spec fn stored_at(&self, i: int) -> Option<T> {
        match self.slots@[i].state {
            SlotState::Occupied(v) => Some(v),
            _ => None,
        }
    }

    /// Whether slot `i` is reserved by an outstanding ticket.
    pub closed spec fn reserved_at(&self, i: int) -> bool {
        self.slots@[i].state is Reserved
    }

    /// Whether slot `i` is free.
    pub closed spec fn free_at(&self, i: int) -> bool {
        self.slots@[i].state is Free
    }

    /// A handle is valid when it points at an occupied slot whose stored
    /// generation equals the handle's.
    pub open spec fn valid(&self, h: Handle) -> bool {
        &&& h.index < self.slot_count()
        &&& self.gen_at(h.index as int) == h.generation
        &&& self.stored_at(h.index as int) is Some
    }

    /// The value a valid handle refers to.
    pub open spec fn at(&self, h: Handle) -> T
        recommends
            self.valid(h),
    {
        self.stored_at(h.index as int).unwrap()
    }

    /// A ticket is valid while its slot is still reserved under the
    /// ticket's generation.
    pub open spec fn ticket_valid(&self, t: Ticket) -> bool {
        &&& t.index < self.slot_count()
        &&& self.gen_at(t.index as int) == t.generation
        &&& self.reserved_at(t.index as int)
    }

    /// Internal consistency of the free list: every entry is the index of a
    /// free slot, and no index appears twice.
    pub closed spec fn wf(&self) -> bool {
        &&& forall|k: int|
            0 <= k < self.free_list@.len() ==> #[trigger] self.free_list@[k] < self.slots@.len()
                && self.slots@[self.free_list@[k] as int].state is Free
        &&& forall|k1: int, k2: int|
            0 <= k1 < k2 < self.free_list@.len() ==> #[trigger] self.free_list@[k1]
                != #[trigger] self.free_list@[k2]
    }

    /// Creates an empty pool.
    pub fn new() -> (p: Self)
        ensures
            p.wf(),
            p.slot_count() == 0,
            forall|h: Handle| !p.valid(h),
            forall|t: Ticket| !p.ticket_valid(t),
    {
        Pool { slots: Vec::new(), free_list: Vec::new() }
    }

    /// Stores `value` in the pool, reusing a free slot when one exists and
    /// growing the slot array otherwise, and returns a fresh handle for it.
    pub fn spawn(&mut self, value: T) -> (h: Handle)
        requires
            old(self).wf(),
        ensures
            final(self).wf(),
            final(self).valid(h),
            final(self).at(h) == value,
            !old(self).valid(h),
            h.index < final(self).slot_count(),
            h.generation == final(self).gen_at(h.index as int),
            old(self).slot_count() <= final(self).slot_count() <= old(self).slot_count() + 1,
            forall|i: int|
                0 <= i < old(self).slot_count() ==> #[trigger] final(self).gen_at(i) == old(
                    self,
                ).gen_at(i),
            forall|h2: Handle|
                h2 != h ==> (#[trigger] final(self).valid(h2) <==> old(self).valid(h2)),
            forall|h2: Handle|
                h2 != h && old(self).valid(h2) ==> #[trigger] final(self).at(h2) == old(
                    self,
                ).at(h2),
            forall|t: Ticket| #[trigger] final(self).ticket_valid(t) <==> old(self).ticket_valid(t),
            forall|t: Ticket|
                old(self).ticket_valid(t) ==> #[trigger] final(self).stored_at(t.index as int)
                    == old(self).stored_at(t.index as int),
    {
        match self.free_list.pop() {
            Some(index) => {
                let generation = self.slots[index].generation;
                self.slots[index] = Slot { generation, state: SlotState::Occupied(value) };
                Handle { index, generation }
            },
            None => {
                let index = self.slots.len();
                self.slots.push(Slot { generation: 0, state: SlotState::Occupied(value) });
                Handle { index, generation: 0 }
            },
        }
    }

    /// Tells whether `handle` currently refers to a live entry.
    pub fn is_valid_handle(&self, handle: Handle) -> (r: bool)
        ensures
            r == self.valid(handle),
    {
        if handle.index < self.slots.len() {
            let slot = &self.slots[handle.index];
            slot.generation == handle.generation && match &slot.state {
                SlotState::Occupied(_) => true,
                _ => false,
            }
        } else {
            false
        }
    }

    /// Removes the entry `handle` refers to, bumps the slot's generation
    /// (invalidating the handle for good) and releases the slot for reuse.
    /// An invalid handle leaves the pool unchanged and yields `None`.
    pub fn free(&mut self, handle: Handle) -> (r: Option<T>)
        requires
            old(self).wf(),
        ensures
            final(self).wf(),
            final(self).slot_count() == old(self).slot_count(),
            old(self).valid(handle) ==> r == Some(old(self).at(handle)),
            !old(self).valid(handle) ==> r is None && *final(self) == *old(self),
            !final(self).valid(handle),
            forall|h2: Handle|
                h2 != handle ==> (#[trigger] final(self).valid(h2) <==> old(self).valid(h2)),
            forall|h2: Handle|
                h2 != handle && old(self).valid(h2) ==> #[trigger] final(self).at(h2) == old(
                    self,
                ).at(h2),
            forall|t: Ticket| #[trigger] final(self).ticket_valid(t) <==> old(self).ticket_valid(t),
            old(self).valid(handle) ==> final(self).gen_at(handle.index as int) == bumped(
                handle.generation,
            ),
    {
        if !self.is_valid_handle(handle) {
            return None;
        }
        let generation = self.slots[handle.index].generation;
        let retired = generation == u64::MAX;
        let new_generation = if retired {
            generation
        } else {
            generation + 1
        };
        let mut taken = Slot { generation: new_generation, state: SlotState::Free };
        core::mem::swap(&mut self.slots[handle.index], &mut taken);
        if !retired {
            self.free_list.push(handle.index);
        }
        match taken.state {
            SlotState::Occupied(v) => Some(v),
            _ => vstd::pervasive::unreached(),
        }
    }

    /// Shared access to the entry a valid handle refers to.
    pub fn borrow(&self, handle: Handle) -> (r: &T)
        requires
            self.valid(handle),
        ensures
            *r == self.at(handle),
    {
        match &self.slots[handle.index].state {
            SlotState::Occupied(v) => v,
            _ => vstd::pervasive::unreached(),
        }
    }

    /// Shared access to an entry, or `None` when the handle is invalid.
    pub fn try_borrow(&self, handle: Handle) -> (r: Option<&T>)
        ensures
            match r {
                Some(v) => self.valid(handle) && *v == self.at(handle),
                None => !self.valid(handle),
            },
    {
        if self.is_valid_handle(handle) {
            Some(self.borrow(handle))
        } else {
            None
        }
    }

    /// Exclusive access to the entry a valid handle refers to. Only the
    /// borrowed value changes: the handle stays valid and every other slot
    /// is untouched.
    pub fn borrow_mut(&mut self, handle: Handle) -> (r: &mut T)
        requires
            old(self).wf(),
            old(self).valid(handle),
        ensures
            *r == old(self).at(handle),
            final(self).wf(),
            final(self).slot_count() == old(self).slot_count(),
            final(self).valid(handle),
            final(self).at(handle) == *final(r),
            forall|h2: Handle|
                h2 != handle ==> (#[trigger] final(self).valid(h2) <==> old(self).valid(h2)),
            forall|h2: Handle|
                h2 != handle && old(self).valid(h2) ==> #[trigger] final(self).at(h2) == old(
                    self,
                ).at(h2),
            forall|t: Ticket| #[trigger] final(self).ticket_valid(t) <==> old(self).ticket_valid(t),
    {
        let slot = &mut self.slots[handle.index];
        match &mut slot.state {
            SlotState::Occupied(v) => v,
            _ => vstd::pervasive::unreached(),
        }
    }

    /// Exclusive access to an entry, or `None` when the handle is invalid.
    /// An invalid handle leaves the pool unchanged.
    pub fn try_borrow_mut(&mut self, handle: Handle) -> (r: Option<&mut T>)
        requires
            old(self).wf(),
        ensures
            final(self).wf(),
            final(self).slot_count() == old(self).slot_count(),
            match r {
                Some(v) => {
                    &&& old(self).valid(handle)
                    &&& *v == old(self).at(handle)
                    &&& final(self).valid(handle)
                    &&& final(self).at(handle) == *final(v)
                },
                None => !old(self).valid(handle) && *final(self) == *old(self),
            },
            forall|h2: Handle|
                h2 != handle ==> (#[trigger] final(self).valid(h2) <==> old(self).valid(h2)),
            forall|h2: Handle|
                h2 != handle && old(self).valid(h2) ==> #[trigger] final(self).at(h2) == old(
                    self,
                ).at(h2),
            forall|t: Ticket| #[trigger] final(self).ticket_valid(t) <==> old(self).ticket_valid(t),
    {
        if self.is_valid_handle(handle) {
            Some(self.borrow_mut(handle))
        } else {
            None
        }
    }

    /// Takes the value out of a slot while keeping the slot reserved: the
    /// slot cannot be reused until the ticket is spent with `put_back` or
    /// `forget_ticket`.
    pub fn take_reserve(&mut self, handle: Handle) -> (r: (Ticket, T))
        requires
            old(self).wf(),
            old(self).valid(handle),
        ensures
            final(self).wf(),
            final(self).slot_count() == old(self).slot_count(),
            r.1 == old(self).at(handle),
            r.0.index == handle.index,
            r.0.generation == handle.generation,
            final(self).ticket_valid(r.0),
            !final(self).valid(handle),
            forall|h2: Handle|
                h2 != handle ==> (#[trigger] final(self).valid(h2) <==> old(self).valid(h2)),
            forall|h2: Handle|
                h2 != handle && old(self).valid(h2) ==> #[trigger] final(self).at(h2) == old(
                    self,
                ).at(h2),
            forall|t: Ticket|
                t.index != handle.index ==> (#[trigger] final(self).ticket_valid(t) <==> old(
                    self,
                ).ticket_valid(t)),
    {
        let generation = self.slots[handle.index].generation;
        let mut taken = Slot { generation, state: SlotState::Reserved };
        core::mem::swap(&mut self.slots[handle.index], &mut taken);
        let value = match taken.state {
            SlotState::Occupied(v) => v,
            _ => vstd::pervasive::unreached(),
        };
        (Ticket { index: handle.index, generation }, value)
    }

    /// Restores a value into the slot a ticket reserves, reviving the
    /// handle the value was taken under.
    pub fn put_back(&mut self, ticket: Ticket, value: T) -> (h: Handle)
        requires
            old(self).wf(),
            old(self).ticket_valid(ticket),
        ensures
            final(self).wf(),
            final(self).slot_count() == old(self).slot_count(),
            h.index == ticket.index,
            h.generation == ticket.generation,
            final(self).valid(h),
            final(self).at(h) == value,
            forall|h2: Handle|
                h2 != h ==> (#[trigger] final(self).valid(h2) <==> old(self).valid(h2)),
            forall|h2: Handle|
                h2 != h && old(self).valid(h2) ==> #[trigger] final(self).at(h2) == old(self).at(
                    h2,
                ),
            forall|t: Ticket|
                t.index != ticket.index ==> (#[trigger] final(self).ticket_valid(t) <==> old(
                    self,
                ).ticket_valid(t)),
            !final(self).ticket_valid(ticket),
    {
        let generation = self.slots[ticket.index].generation;
        self.slots[ticket.index] = Slot { generation, state: SlotState::Occupied(value) };
        Handle { index: ticket.index, generation }
    }

    /// Releases a reserved slot without restoring a value: the slot's
    /// generation is bumped and the slot rejoins the free list.
    pub fn forget_ticket(&mut self, ticket: Ticket)
        requires
            old(self).wf(),
            old(self).ticket_valid(ticket),
        ensures
            final(self).wf(),
            final(self).slot_count() == old(self).slot_count(),
            forall|h2: Handle|
                h2.index != ticket.index ==> (#[trigger] final(self).valid(h2) <==> old(
                    self,
                ).valid(h2)),
            forall|h2: Handle| h2.index == ticket.index ==> !final(self).valid(h2),
            forall|h2: Handle|
                h2.index != ticket.index && old(self).valid(h2) ==> #[trigger] final(self).at(h2)
                    == old(self).at(h2),
            forall|t: Ticket|
                t.index != ticket.index ==> (#[trigger] final(self).ticket_valid(t) <==> old(
                    self,
                ).ticket_valid(t)),
            !final(self).ticket_valid(ticket),
    {
        let generation = self.slots[ticket.index].generation;
        let retired = generation == u64::MAX;
        let new_generation = if retired {
            generation
        } else {
            generation + 1
        };
        self.slots[ticket.index] = Slot { generation: new_generation, state: SlotState::Free };
        if !retired {
            self.free_list.push(ticket.index);
        }
    }

    /// The number of slots in the arena.
    pub fn total_slot_count(&self) -> (r: usize)
        ensures
            r == self.slot_count(),
    {
        self.slots.len()
    }

    /// The handle of the entry in slot `i`, if that slot is occupied.
    pub fn handle_at_index(&self, i: usize) -> (r: Option<Handle>)
        requires
            i < self.slot_count(),
        ensures
            match r {
                Some(h) => h.index == i && h.generation == self.gen_at(i as int) && self.valid(h)
                    && self.stored_at(i as int) == Some(self.at(h)),
                None => self.stored_at(i as int) is None,
            },
    {
        let slot = &self.slots[i];
        let occupied = match &slot.state {
            SlotState::Occupied(_) => true,
            _ => false,
        };
        if occupied {
            Some(Handle { index: i, generation: slot.generation })
        } else {
            None
        }
    }

    /// The handles of all occupied slots, in slot order. Together with
    /// `borrow` this walks every live entry while skipping free and
    /// reserved slots.
    pub fn live_handles(&self) -> (hs: Vec<Handle>)
        ensures
            forall|k: int| 0 <= k < hs@.len() ==> self.valid(#[trigger] hs@[k]),
            forall|k1: int, k2: int|
                0 <= k1 < k2 < hs@.len() ==> #[trigger] hs@[k1].index < #[trigger] hs@[k2].index,
            forall|h: Handle| self.valid(h) ==> hs@.contains(h),
    {
        let mut hs: Vec<Handle> = Vec::new();
        let n = self.slots.len();
        for i in 0..n
            invariant
                n == self.slots@.len(),
                forall|k: int| 0 <= k < hs@.len() ==> self.valid(#[trigger] hs@[k]),
                forall|k: int| 0 <= k < hs@.len() ==> #[trigger] hs@[k].index < i,
                forall|k1: int, k2: int|
                    0 <= k1 < k2 < hs@.len() ==> #[trigger] hs@[k1].index
                        < #[trigger] hs@[k2].index,
                forall|h: Handle| self.valid(h) && h.index < i ==> hs@.contains(h),
        {
            let slot = &self.slots[i];
            let occupied = match &slot.state {
                SlotState::Occupied(_) => true,
                _ => false,
            };
            if occupied {
                let h = Handle { index: i, generation: slot.generation };
                let ghost pre = hs@;
                hs.push(h);
                proof {
                    assert forall|h2: Handle| self.valid(h2) && h2.index < i + 1 implies hs@
                        .contains(h2) by {
                        if h2.index < i {
                            let k = choose|k: int| 0 <= k < pre.len() && pre[k] == h2;
                            assert(hs@[k] == h2);
                        } else {
                            assert(h2 == h);
                            assert(hs@[pre.len() as int] == h);
                        }
                    }
                }
            }
        }
        hs
    }

    /// Frees every occupied slot whose value the predicate rejects, in one
    /// pass; kept entries stay under their old handles with their values
    /// untouched. A caller whose predicate's contract pins its result down
    /// thereby knows exactly which entries survive.
    pub fn retain<F: Fn(&T) -> bool>(&mut self, f: F)
        requires
            old(self).wf(),
            forall|v: T| #[trigger] f.requires((&v,)),
        ensures
            final(self).wf(),
            final(self).slot_count() == old(self).slot_count(),
            forall|h: Handle|
                #[trigger] final(self).valid(h) ==> old(self).valid(h)
                    && final(self).at(h) == old(self).at(h)
                    && f.ensures((&old(self).at(h),), true),
            forall|h: Handle|
                old(self).valid(h) && !f.ensures((&old(self).at(h),), false)
                    ==> #[trigger] final(self).valid(h),
            forall|t: Ticket| #[trigger] final(self).ticket_valid(t) <==> old(self).ticket_valid(t),
            forall|t: Ticket|
                old(self).ticket_valid(t) ==> #[trigger] final(self).stored_at(t.index as int)
                    == old(self).stored_at(t.index as int),
    {
        let n = self.slots.len();
        for i in 0..n
            invariant
                self.slots@.len() == n,
                n == old(self).slot_count(),
                self.wf(),
                forall|v: T| #[trigger] f.requires((&v,)),
                forall|j: int| i <= j < n ==> self.slots@[j] == old(self).slots@[j],
                forall|j: int|
                    0 <= j < i && old(self).stored_at(j) is None ==> (#[trigger] self.slots@[j])
                        == old(self).slots@[j],
                forall|j: int|
                    0 <= j < i && old(self).stored_at(j) is Some ==> ((#[trigger] self.slots@[j])
                        == old(self).slots@[j] && f.ensures(
                        (&old(self).stored_at(j).unwrap(),),
                        true,
                    )) || (self.slots@[j].state is Free && self.slots@[j].generation == bumped(
                        old(self).gen_at(j),
                    ) && f.ensures((&old(self).stored_at(j).unwrap(),), false)),
                forall|j: int|
                    0 <= j < i && old(self).stored_at(j) is Some && !f.ensures(
                        (&old(self).stored_at(j).unwrap(),),
                        false,
                    ) ==> (#[trigger] self.slots@[j]) == old(self).slots@[j],
        {
            let occupied = match &self.slots[i].state {
                SlotState::Occupied(_) => true,
                _ => false,
            };
            if occupied {
                let keep = match &self.slots[i].state {
                    SlotState::Occupied(v) => f(v),
                    _ => vstd::pervasive::unreached(),
                };
                if !keep {
                    let generation = self.slots[i].generation;
                    let retired = generation == u64::MAX;
                    let new_generation = if retired {
                        generation
                    } else {
                        generation + 1
                    };
                    self.slots[i] = Slot { generation: new_generation, state: SlotState::Free };
                    if !retired {
                        self.free_list.push(i);
                    }
                }
            }
        }
    }
}

/// Handle-level frame conditions pin the slots down: when an operation
/// preserves the validity and value of every handle but one, every slot
/// other than that handle's keeps its stored value, and its generation
/// too while it is occupied.
pub proof fn lemma_handle_frame_to_slots<T>(pa: Pool<T>, pb: Pool<T>, h: Handle)
    requires
        pa.slot_count() <= usize::MAX,
        pa.slot_count() == pb.slot_count(),
        forall|h2: Handle| h2 != h ==> (#[trigger] pb.valid(h2) <==> pa.valid(h2)),
        forall|h2: Handle| h2 != h && pa.valid(h2) ==> #[trigger] pb.at(h2) == pa.at(h2),
    ensures
        forall|j: int|
            0 <= j < pa.slot_count() && j != h.index ==> #[trigger] pb.stored_at(j)
                == pa.stored_at(j) && (pa.stored_at(j) is Some ==> pb.gen_at(j) == pa.gen_at(j)),
{
    assert forall|j: int| 0 <= j < pa.slot_count() && j != h.index implies #[trigger] pb.stored_at(
        j,
    ) == pa.stored_at(j) && (pa.stored_at(j) is Some ==> pb.gen_at(j) == pa.gen_at(j)) by {
        if pa.stored_at(j) is Some {
            let ha = Handle { index: j as usize, generation: pa.gen_at(j) };
            assert(pa.valid(ha));
            assert(pb.valid(ha));
            assert(pb.at(ha) == pa.at(ha));
        } else {
            if pb.stored_at(j) is Some {
                let hb = Handle { index: j as usize, generation: pb.gen_at(j) };
                assert(pb.valid(hb));
                assert(pa.valid(hb));
                assert(false);
            }
        }
    }
}

/// A freed entry can never come back to life. The hypotheses are what
/// `free` and `spawn` ensure: freeing bumped the slot's generation past the
/// handle's, and the spawn changed no other handle's validity and no stored
/// generation. It follows that the freed handle is still invalid after the
/// spawn — even when the spawn reused the same slot index, the new handle
/// carries a different generation. A slot whose generation has reached the
/// retirement value `u64::MAX` is never put back on the free list, so the
/// bound on `freed.generation` excludes nothing a pool can reuse.
pub proof fn lemma_freed_handle_stays_invalid<T>(
    after_free: Pool<T>,
    after_spawn: Pool<T>,
    freed: Handle,
    spawned: Handle,
)
    requires
        freed.generation < u64::MAX,
        freed.index < after_free.slot_count(),
        after_free.gen_at(freed.index as int) == bumped(freed.generation),
        !after_free.valid(freed),
        after_spawn.valid(spawned),
        !after_free.valid(spawned),
        spawned.generation == after_spawn.gen_at(spawned.index as int),
        forall|h: Handle|
            h != spawned ==> (#[trigger] after_spawn.valid(h) <==> after_free.valid(h)),
        forall|i: int|
            0 <= i < after_free.slot_count() ==> #[trigger] after_spawn.gen_at(i)
                == after_free.gen_at(i),
    ensures
        !after_spawn.valid(freed),
        spawned != freed,
        spawned.index == freed.index ==> spawned.generation != freed.generation,
{
    if spawned == freed {
        assert(after_spawn.gen_at(freed.index as int) == after_free.gen_at(freed.index as int));
        assert(spawned.generation == bumped(freed.generation));
        assert(bumped(freed.generation) != freed.generation);
    }
    assert(spawned != freed);
    if spawned.index == freed.index && spawned.generation == freed.generation {
        assert(spawned == freed);
    }
}

} // verus!
