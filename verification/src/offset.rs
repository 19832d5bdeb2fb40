//! Ordinal positions of the interfaces of a class, and the pointer adjustment
//! that belongs to each.

use vstd::prelude::*;

verus! {

/// The width of one vtable-pointer slot, in bytes.
pub const POINTER_WIDTH: usize = 8;

/// The number of ordinal positions that are supported: 0, 1, 2 and 3.
pub const MAX_INTERFACES: usize = 4;

/// An ordinal position among the interfaces of a class.
pub trait Offset {
    /// The position, counted from zero.
    spec fn spec_value() -> usize;

    /// The position, counted from zero. It is one of the supported positions.
    fn value() -> (v: usize)
        ensures
            v == Self::spec_value(),
            v < MAX_INTERFACES,
    ;
}

/// The first position.
pub struct Zero;

/// The second position.
pub struct One;

/// The third position.
pub struct Two;

/// The fourth position.
pub struct Three;

impl Offset for Zero {
    open spec fn spec_value() -> usize {
        0
    }

    fn value() -> (v: usize) {
        0
    }
}

impl Offset for One {
    open spec fn spec_value() -> usize {
        1
    }

    fn value() -> (v: usize) {
        1
    }
}

impl Offset for Two {
    open spec fn spec_value() -> usize {
        2
    }

    fn value() -> (v: usize) {
        2
    }
}

impl Offset for Three {
    open spec fn spec_value() -> usize {
        3
    }

    fn value() -> (v: usize) {
        3
    }
}

/// The address of slot `ordinal` of the block that starts at `base`.
pub open spec fn spec_slot_address(base: int, ordinal: int) -> int {
    base + ordinal * POINTER_WIDTH as int
}

/// The start of the block whose slot `ordinal` has the address `slot`.
pub open spec fn spec_base_address(slot: int, ordinal: int) -> int {
    slot - ordinal * POINTER_WIDTH as int
}

/// The address of slot `ordinal` of the block that starts at `base`:
/// `ordinal` pointer widths above the start.
pub fn slot_address(base: usize, ordinal: usize) -> (r: usize)
    requires
        ordinal < MAX_INTERFACES,
        spec_slot_address(base as int, ordinal as int) <= usize::MAX,
    ensures
        r == spec_slot_address(base as int, ordinal as int),
{
    base + ordinal * POINTER_WIDTH
}

/// The start of the block, recovered from the address of its slot `ordinal`:
/// `ordinal` pointer widths below the slot.
pub fn base_address(slot: usize, ordinal: usize) -> (r: usize)
    requires
        ordinal < MAX_INTERFACES,
        spec_base_address(slot as int, ordinal as int) >= 0,
    ensures
        r == spec_base_address(slot as int, ordinal as int),
{
    slot - ordinal * POINTER_WIDTH
}

/// The adjustment that recovers the start of a block from a pointer to its
/// slot `ordinal`, in bytes: `ordinal` pointer widths.
pub fn adjustment<O: Offset>() -> (r: usize)
    ensures
        r == O::spec_value() * POINTER_WIDTH,
{
    O::value() * POINTER_WIDTH
}

/// Going to slot `ordinal` and back gives the start of the block again, and
/// the way back is exactly `ordinal` pointer widths long.
pub proof fn lemma_adjustment_round_trip(base: int, ordinal: int)
    ensures
        spec_base_address(spec_slot_address(base, ordinal), ordinal) == base,
        spec_slot_address(base, ordinal) - base == ordinal * POINTER_WIDTH as int,
{
}

} // verus!
