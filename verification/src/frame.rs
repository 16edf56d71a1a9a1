//! Physical frames and their order.
use vstd::prelude::*;
use core::cmp::Ordering;

verus! {

/// A physical frame of 4 KiB memory, identified by its number
/// (its start address shifted right by 12).
#[derive(Clone, Copy, Debug)]
pub struct Frame {
    pub number: u32,
}

impl PartialEq for Frame {
    fn eq(&self, other: &Frame) -> (r: bool) {
        self.number == other.number
    }
}

impl vstd::std_specs::cmp::PartialEqSpecImpl for Frame {
    open spec fn obeys_eq_spec() -> bool {
        true
    }

    open spec fn eq_spec(&self, other: &Frame) -> bool {
        self.number == other.number
    }
}

/// Frames are ordered by their numbers.
pub open spec fn frame_order(a: Frame, b: Frame) -> Option<Ordering> {
    if a.number < b.number {
        Some(Ordering::Less)
    } else if a.number == b.number {
        Some(Ordering::Equal)
    } else {
        Some(Ordering::Greater)
    }
}

impl PartialOrd for Frame {
    fn partial_cmp(&self, other: &Frame) -> (r: Option<Ordering>) {
        if self.number < other.number {
            Some(Ordering::Less)
        } else if self.number == other.number {
            Some(Ordering::Equal)
        } else {
            Some(Ordering::Greater)
        }
    }
}

impl vstd::std_specs::cmp::PartialOrdSpecImpl for Frame {
    open spec fn obeys_partial_cmp_spec() -> bool {
        true
    }

    open spec fn partial_cmp_spec(&self, other: &Frame) -> Option<Ordering> {
        frame_order(*self, *other)
    }
}

} // verus!
