//! The order of free intervals: one is before another when it ends before the other begins.

use vstd::prelude::*;
use std::cmp::Ordering;
use vstd::std_specs::cmp::PartialOrdSpecImpl;
use crate::table_allocator::FreeInterval;

verus! {

/// How two free intervals compare: `Less` when the first ends before the second begins, `Equal`
/// when they are the same, `Greater` when the first begins after the second ends, and no order
/// when they overlap.
pub open spec fn interval_order(a: FreeInterval, b: FreeInterval) -> Option<Ordering> {
    if a.sup_excluded <= b.inf {
        Some(Ordering::Less)
    } else if a == b {
        Some(Ordering::Equal)
    } else if a.inf >= b.sup_excluded {
        Some(Ordering::Greater)
    } else {
        None
    }
}

impl PartialOrd for FreeInterval {
    fn partial_cmp(&self, other: &Self) -> (r: Option<Ordering>) {
        if self.sup_excluded <= other.inf {
            Some(Ordering::Less)
        } else if *self == *other {
            Some(Ordering::Equal)
        } else if self.inf >= other.sup_excluded {
            Some(Ordering::Greater)
        } else {
            None
        }
    }
}

impl PartialOrdSpecImpl for FreeInterval {
    open spec fn obeys_partial_cmp_spec() -> bool {
        true
    }

    open spec fn partial_cmp_spec(&self, other: &Self) -> Option<Ordering> {
        interval_order(*self, *other)
    }
}

} // verus!
