//! In-process COM support: interface identities, interface descriptors, vtable
//! layout, reference-counted interface handles and the apartment runtime.

pub mod com_ptr;
pub mod compiler;
pub mod iid;
pub mod inproc;
pub mod interface;
pub mod offset;
pub mod registry;
pub mod runtime;
pub mod text;
pub mod vtable;

pub use com_ptr::{ComPtr, InterfacePtr};
pub use iid::Iid;
pub use inproc::ObjectSpace;
pub use runtime::ApartmentThreadedRuntime;

use offset::{Offset, MAX_INTERFACES};
use registry::{iid_iunknown, root_iid};
use vstd::prelude::*;
use vtable::{reserved_slots, Slot, VTable};

verus! {

/// A COM compliant interface, as a type: it has an identity, and it knows
/// the identities of its ancestors.
pub trait ComInterface {
    /// The identity of the interface.
    spec fn spec_iid() -> Iid;

    /// The identities of the ancestors of the interface, from its parent up
    /// to and including the root; empty for the root itself.
    spec fn spec_ancestors() -> Seq<Iid>;

    /// The place of the interface among the interfaces that are declared.
    spec fn spec_place() -> usize;

    /// The entries of the vtable of the interface for the ordinal `offset`,
    /// every one of them: the three reserved operations, bound to the
    /// ordinal, and then one entry for every method along its chain.
    spec fn spec_slots(offset: usize) -> Seq<Slot>;

    /// The vtable starts with the three reserved operations, bound to the
    /// ordinal for which it is made.
    proof fn lemma_slots_start_reserved(offset: usize)
        ensures
            Self::spec_slots(offset).len() >= 3,
            Self::spec_slots(offset).take(3) == reserved_slots(offset),
    ;

    /// The identity of the interface.
    fn iid() -> (r: Iid)
        ensures
            r == Self::spec_iid(),
    ;

    /// Whether `riid` is the identity of this interface or of one of its
    /// ancestors, up to and including the root.
    fn is_iid_in_inheritance_chain(riid: &Iid) -> (r: bool)
        ensures
            r == (*riid == Self::spec_iid() || Self::spec_ancestors().contains(*riid)),
    ;
}

/// A COM compliant class: a block that starts with one vtable pointer for
/// each of the interfaces that the class implements.
pub trait CoClass {
    /// The number of interfaces that the class implements.
    spec fn spec_interface_count() -> nat;

    /// The number of interfaces that the class implements: at least one, and
    /// no more than there are ordinals.
    fn interface_count() -> (n: usize)
        ensures
            n == Self::spec_interface_count(),
            1 <= n <= MAX_INTERFACES,
    ;
}

/// An interface as implemented by the class `T`: it can make its vtable for
/// any ordinal at which the class holds it.
pub trait ProductionComInterface<T: CoClass>: ComInterface {
    /// The vtable for the ordinal `O`: the entries of the interface, with
    /// the reserved operations bound to that ordinal.
    fn vtable<O: Offset>() -> (r: VTable)
        ensures
            r.interface == Self::spec_place(),
            r.offset == O::spec_value(),
            r.slots@ == Self::spec_slots(O::spec_value()),
    ;
}

/// The root interface, which every interface descends from. Its three
/// operations are the reserved entries of every vtable.
pub struct IUnknown;

/// The class that implements the root interface and nothing else.
pub struct UnknownClass;

impl ComInterface for IUnknown {
    open spec fn spec_iid() -> Iid {
        root_iid()
    }

    open spec fn spec_ancestors() -> Seq<Iid> {
        Seq::empty()
    }

    open spec fn spec_place() -> usize {
        0
    }

    open spec fn spec_slots(offset: usize) -> Seq<Slot> {
        reserved_slots(offset)
    }

    proof fn lemma_slots_start_reserved(offset: usize) {
        assert(reserved_slots(offset).take(3) =~= reserved_slots(offset));
    }

    fn iid() -> (r: Iid) {
        iid_iunknown()
    }

    fn is_iid_in_inheritance_chain(riid: &Iid) -> (r: bool) {
        let own: Iid = iid_iunknown();
        riid.same(&own)
    }
}

impl CoClass for UnknownClass {
    open spec fn spec_interface_count() -> nat {
        1
    }

    fn interface_count() -> (n: usize) {
        1
    }
}

impl ProductionComInterface<UnknownClass> for IUnknown {
    fn vtable<O: Offset>() -> (r: VTable) {
        let offset: usize = O::value();
        let mut slots: Vec<Slot> = Vec::new();
        slots.push(Slot::QueryInterface { offset });
        slots.push(Slot::AddRef { offset });
        slots.push(Slot::Release { offset });
        assert(slots@ =~= reserved_slots(offset));
        VTable { interface: 0, offset, slots }
    }
}

/// The chain test of an interface with the identity `own` and the parent
/// `P`: true for `own` and for everything in the chain of `P`.
pub fn chain_step<P: ComInterface>(own: &Iid, riid: &Iid) -> (r: bool)
    ensures
        r == (*riid == *own || *riid == P::spec_iid() || P::spec_ancestors().contains(*riid)),
{
    riid.same(own) || P::is_iid_in_inheritance_chain(riid)
}

/// The vtable of the interface `I` as the class `C` implements it at the
/// ordinal `O`.
pub fn vtable_of<C: CoClass, I: ProductionComInterface<C>, O: Offset>() -> (r: VTable)
    ensures
        r.interface == I::spec_place(),
        r.offset == O::spec_value(),
        r.slots@ == I::spec_slots(O::spec_value()),
        r.slots@.len() >= 3,
        r.slots@.take(3) == reserved_slots(O::spec_value()),
{
    proof {
        I::lemma_slots_start_reserved(O::spec_value());
    }
    I::vtable::<O>()
}

} // verus!
