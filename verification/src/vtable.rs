//! The shape of a vtable: three reserved entries, then one entry for every
//! method along the chain of parents, the root's first.

use crate::offset::MAX_INTERFACES;
use crate::registry::Registry;
use vstd::prelude::*;

verus! {

/// One entry of a vtable. The three reserved operations carry the ordinal of
/// the interface within its class, which tells them how far the pointer that
/// they receive lies above the start of the object.
#[derive(Clone, Copy, Debug, PartialEq, Eq, Structural)]
pub enum Slot {
    QueryInterface { offset: usize },
    AddRef { offset: usize },
    Release { offset: usize },
    /// Method number `index` of those that the interface at `interface` declares.
    Method { interface: usize, index: usize },
}

/// The vtable of one interface of a class.
#[derive(Debug, PartialEq, Eq)]
pub struct VTable {
    /// The place of the interface in the registry.
    pub interface: usize,
    /// The ordinal of the interface within its class.
    pub offset: usize,
    pub slots: Vec<Slot>,
}

/// The three reserved entries, bound to an ordinal.
pub open spec fn reserved_slots(offset: usize) -> Seq<Slot> {
    seq![
        Slot::QueryInterface { offset },
        Slot::AddRef { offset },
        Slot::Release { offset },
    ]
}

/// The entries that the interface at `id` adds to those of its parent.
pub open spec fn own_slots(r: Registry, id: int, offset: usize) -> Seq<Slot> {
    if id == 0 {
        reserved_slots(offset)
    } else {
        Seq::new(
            r.entries@[id].methods@.len(),
            |k: int| Slot::Method { interface: id as usize, index: k as usize },
        )
    }
}

/// The entries of the vtable of the interface at `id`: those of its parent,
/// then its own.
pub open spec fn layout(r: Registry, id: int, offset: usize) -> Seq<Slot>
    decreases id,
{
    match r.parent_of(id) {
        Some(p) => layout(r, p, offset) + own_slots(r, id, offset),
        None => own_slots(r, id, offset),
    }
}

impl Registry {
    /// The vtable of the interface at `id`, for a class that implements it at
    /// ordinal `offset`.
    pub fn vtable(&self, id: usize, offset: usize) -> (r: VTable)
        requires
            self.wf(),
            id < self.len(),
            offset < MAX_INTERFACES,
        ensures
            r.interface == id,
            r.offset == offset,
            r.slots@ == layout(*self, id as int, offset),
    {
        VTable { interface: id, offset, slots: self.slots_of(id, offset) }
    }

    fn slots_of(&self, id: usize, offset: usize) -> (r: Vec<Slot>)
        requires
            self.wf(),
            id < self.len(),
        ensures
            r@ == layout(*self, id as int, offset),
        decreases id,
    {
        if id == 0 {
            let mut slots: Vec<Slot> = Vec::new();
            slots.push(Slot::QueryInterface { offset });
            slots.push(Slot::AddRef { offset });
            slots.push(Slot::Release { offset });
            assert(slots@ =~= reserved_slots(offset));
            return slots;
        }
        let parent: usize = match self.entries[id].parent {
            Some(p) => p,
            None => 0,
        };
        let mut slots: Vec<Slot> = self.slots_of(parent, offset);
        let ghost inherited = slots@;
        let n: usize = self.entries[id].methods.len();
        let mut k: usize = 0;
        while k < n
            invariant
                k <= n,
                n == self.entries@[id as int].methods@.len(),
                id > 0,
                slots@ == inherited + own_slots(*self, id as int, offset).take(k as int),
            decreases n - k,
        {
            slots.push(Slot::Method { interface: id, index: k });
            proof {
                let own = own_slots(*self, id as int, offset);
                assert(own.take(k + 1) =~= own.take(k as int).push(own[k as int]));
                assert(inherited + own.take(k + 1) =~= (inherited + own.take(k as int)).push(
                    own[k as int],
                ));
            }
            k = k + 1;
        }
        proof {
            let own = own_slots(*self, id as int, offset);
            assert(own.take(n as int) =~= own);
        }
        slots
    }
}

/// Every vtable starts with the three reserved entries, bound to the ordinal
/// for which it was made.
pub proof fn lemma_reserved_first(r: Registry, id: int, offset: usize)
    requires
        r.wf(),
        0 <= id < r.len(),
    ensures
        layout(r, id, offset).len() >= 3,
        layout(r, id, offset).take(3) == reserved_slots(offset),
    decreases id,
{
    if id > 0 {
        let p = r.parent_of(id)->Some_0;
        assert(r.entries@[id].parent is Some);
        lemma_reserved_first(r, p, offset);
        assert(layout(r, id, offset).take(3) =~= layout(r, p, offset).take(3));
    } else {
        assert(layout(r, id, offset).take(3) =~= reserved_slots(offset));
    }
}

/// The layout only ever grows at its end: the vtable of an ancestor is a
/// prefix of the vtable of each of its descendants.
pub proof fn lemma_ancestor_is_prefix(r: Registry, id: int, ancestor: int, offset: usize)
    requires
        r.wf(),
        0 <= id < r.len(),
        r.is_ancestor_or_self(id, ancestor),
    ensures
        layout(r, ancestor, offset).is_prefix_of(layout(r, id, offset)),
    decreases id,
{
    if id != ancestor {
        let p = r.parent_of(id)->Some_0;
        lemma_ancestor_is_prefix(r, p, ancestor, offset);
        let a = layout(r, ancestor, offset);
        let b = layout(r, p, offset);
        let c = layout(r, id, offset);
        assert(a.len() <= b.len() && a =~= b.subrange(0, a.len() as int));
        assert(b.len() <= c.len());
        assert(a =~= c.subrange(0, a.len() as int));
    } else {
        let a = layout(r, id, offset);
        assert(a =~= a.subrange(0, a.len() as int));
    }
}

/// The vtable of a child is the vtable of its parent with one entry appended
/// for each method that the child declares: nothing is reordered or removed.
pub proof fn lemma_child_extends_parent(r: Registry, id: int, offset: usize)
    requires
        r.wf(),
        1 <= id < r.len(),
    ensures
        r.parent_of(id) matches Some(p) && layout(r, id, offset) == layout(r, p, offset)
            + own_slots(r, id, offset) && layout(r, id, offset).len() == layout(
            r,
            p,
            offset,
        ).len() + r.entries@[id].methods@.len(),
{
    assert(r.entries@[id].parent is Some);
}

} // verus!
