//! Places on a ring: the columns of a row, or the rows of the grid, which run
//! on from the last to the first.

use vstd::prelude::*;

verus! {

/// How many places `position` lies ahead of `origin` on a ring of `size`
/// places.
pub open spec fn ring_offset(position: int, origin: int, size: int) -> int {
    (position - origin) % size
}

/// The place that lies `ahead` places ahead of `origin` on a ring of `size`
/// places.
pub open spec fn ring_place(origin: int, ahead: int, size: int) -> int {
    (origin + ahead) % size
}

/// An offset lies on the ring.
pub proof fn lemma_ring_offset_bounds(position: int, origin: int, size: int)
    requires
        size > 0,
    ensures
        0 <= ring_offset(position, origin, size) < size,
{
}

/// Offsets and places go by the origin's own place on the ring.
pub proof fn lemma_ring_origin_reduced(position: int, origin: int, ahead: int, size: int)
    requires
        size == 32 || size == 64,
    ensures
        ring_offset(position, origin % size, size) == ring_offset(position, origin, size),
        ring_place(origin % size, ahead, size) == ring_place(origin, ahead, size),
{
    if size == 32 {
        assert((position - origin % 32) % 32 == (position - origin) % 32);
        assert((origin % 32 + ahead) % 32 == (origin + ahead) % 32);
    } else {
        assert((position - origin % 64) % 64 == (position - origin) % 64);
        assert((origin % 64 + ahead) % 64 == (origin + ahead) % 64);
    }
}

/// The place `ahead` places ahead of the origin lies `ahead` places ahead of
/// it.
pub proof fn lemma_ring_offset_of_place(origin: int, ahead: int, size: int)
    requires
        size == 32 || size == 64,
        0 <= ahead < size,
    ensures
        ring_offset(ring_place(origin, ahead, size), origin, size) == ahead,
{
    if size == 32 {
        assert(((origin + ahead) % 32 - origin) % 32 == ahead);
    } else {
        assert(((origin + ahead) % 64 - origin) % 64 == ahead);
    }
}

/// A place on the ring is the place that lies its offset ahead of the
/// origin.
pub proof fn lemma_ring_place_of_offset(position: int, origin: int, size: int)
    requires
        size == 32 || size == 64,
        0 <= position < size,
    ensures
        ring_place(origin, ring_offset(position, origin, size), size) == position,
{
    if size == 32 {
        assert((origin + (position - origin) % 32) % 32 == position);
    } else {
        assert((origin + (position - origin) % 64) % 64 == position);
    }
}

} // verus!
