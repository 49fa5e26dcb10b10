//! The states a vending machine can be known to be in.

use vstd::prelude::*;
use crate::vending::stock::{Levels, ProductKey, all_empty, all_full};

verus! {

/// A state of the machine, with what it says of the machine's slots.
/// The states are the three of this file.
pub trait Seal {
    /// Whether a machine with these slots may be held in this state.
    spec fn admits(slots: Map<ProductKey, Levels>) -> bool;
}

/// Nothing is on hand of any product.
pub struct Empty;

/// Every product is stocked to what fits.
pub struct Full;

/// The machine is not at once empty and full: some slot holds something, or
/// some slot has room.
pub struct CanAccept;

impl Seal for Empty {
    open spec fn admits(slots: Map<ProductKey, Levels>) -> bool {
        all_empty(slots)
    }
}

impl Seal for Full {
    open spec fn admits(slots: Map<ProductKey, Levels>) -> bool {
        all_full(slots)
    }
}

impl Seal for CanAccept {
    open spec fn admits(slots: Map<ProductKey, Levels>) -> bool {
        !(all_empty(slots) && all_full(slots))
    }
}

} // verus!
