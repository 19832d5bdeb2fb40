//! Interface handles: the thin pointer to a vtable-pointer slot, and the
//! owning handle that stands for one unit of the object's reference count.

use vstd::prelude::*;

verus! {

/// A pointer to one vtable-pointer slot of an object. It is never null, can
/// be copied freely and owns nothing.
#[derive(Clone, Copy, Debug, PartialEq, Eq, Structural)]
pub struct InterfacePtr {
    address: usize,
}

impl InterfacePtr {
    #[verifier::type_invariant]
    spec fn non_null(self) -> bool {
        self.address != 0
    }

    /// The address of the slot.
    pub closed spec fn addr(self) -> usize {
        self.address
    }

    /// A handle for the slot at `address`; none for the null address.
    pub fn new(address: usize) -> (r: Option<InterfacePtr>)
        ensures
            r is Some <==> address != 0,
            r matches Some(p) ==> p.addr() == address,
    {
        if address == 0 {
            None
        } else {
            Some(InterfacePtr { address })
        }
    }

    /// A handle for the slot at `address`, which is not the null address.
    pub fn from_non_null(address: usize) -> (r: InterfacePtr)
        requires
            address != 0,
        ensures
            r.addr() == address,
    {
        InterfacePtr { address }
    }

    /// The address of the slot, which is not null.
    pub fn address(&self) -> (r: usize)
        ensures
            r == self.addr(),
            r != 0,
    {
        proof {
            use_type_invariant(self);
        }
        self.address
    }
}

/// An owning handle: it stands for one unit of the reference count of the
/// object that it points into. It cannot be copied; a second owner is made
/// by acquiring a reference, and an owner is given up by releasing one.
#[derive(Debug, PartialEq, Eq)]
pub struct ComPtr {
    ptr: InterfacePtr,
}

impl ComPtr {
    /// The slot that the handle points to.
    pub closed spec fn raw(self) -> InterfacePtr {
        self.ptr
    }

    /// Takes over a reference that the caller already holds. The count is not
    /// touched: the caller hands on the unit that it owned.
    pub fn new(ptr: InterfacePtr) -> (r: ComPtr)
        ensures
            r.raw() == ptr,
    {
        ComPtr { ptr }
    }

    /// The slot that the handle points to, without ownership. Whoever uses it
    /// has to balance that use against the count himself.
    pub fn as_raw(&self) -> (r: InterfacePtr)
        ensures
            r == self.raw(),
    {
        self.ptr
    }

    /// Gives up the handle and hands its unit of the count to the caller.
    pub fn into_raw(self) -> (r: InterfacePtr)
        ensures
            r == self.raw(),
    {
        self.ptr
    }
}

} // verus!
