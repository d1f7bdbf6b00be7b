//! Size and alignment of a type, and the blob that stands for an opaque one.

use vstd::prelude::*;

verus! {

/// The largest array for which the target language derives its traits.
pub const DERIVE_IN_ARRAY_LIMIT: usize = 32;

/// Size and alignment of a type, in bytes.
#[derive(Debug, Clone, Copy, PartialEq, Eq, Structural)]
pub struct Layout {
    pub size: usize,
    pub align: usize,
}

/// The number of units of the blob that stands for a type of layout `l`:
/// units of `align` bytes where the alignment is that of an integer of 1, 2,
/// 4 or 8 bytes; no other blob can be written as an array.
pub open spec fn blob_units(l: Layout) -> Option<nat> {
    if l.align == 1 || l.align == 2 || l.align == 4 || l.align == 8 {
        Some((l.size / l.align) as nat)
    } else {
        None
    }
}

/// Whether the target language can derive traits on the blob that stands
/// for a type of layout `l`: the blob is an array within the limit.
pub open spec fn blob_derives(l: Layout) -> bool {
    blob_units(l) is Some && blob_units(l)->0 <= DERIVE_IN_ARRAY_LIMIT
}

impl Layout {
    /// A layout of `size` bytes aligned to `align`.
    pub fn new(size: usize, align: usize) -> (r: Self)
        ensures
            r == (Layout { size, align }),
    {
        Layout { size, align }
    }

    /// The layout of what has no size.
    pub fn zero() -> (r: Self)
        ensures
            r == (Layout { size: 0, align: 0 }),
    {
        Layout { size: 0, align: 0 }
    }

    /// The number of units in the blob that stands for this layout, if the
    /// blob can be written as an array.
    pub fn opaque_units(&self) -> (r: Option<usize>)
        ensures
            r is Some == blob_units(*self) is Some,
            r is Some ==> r->0 == blob_units(*self)->0,
    {
        if self.align == 1 || self.align == 2 || self.align == 4 || self.align == 8 {
            Some(self.size / self.align)
        } else {
            None
        }
    }

    /// Whether the blob that stands for this layout is small enough for the
    /// target language to derive traits on it.
    pub fn opaque_can_derive(&self) -> (r: bool)
        ensures
            r == blob_derives(*self),
    {
        match self.opaque_units() {
            Some(units) => units <= DERIVE_IN_ARRAY_LIMIT,
            None => false,
        }
    }
}

} // verus!
