//! Whether a USE flag is switched on or off.

use std::cmp::Ordering;
use vstd::prelude::*;

verus! {

/// Is a USE flag set or not set. `Unset` orders before `Enabled`.
#[derive(Clone, Copy, Debug, PartialEq, Eq, Structural, Hash, Ord)]
pub enum FlagState {
    Unset,
    Enabled,
}

impl FlagState {
    /// The position of the state in the order: 0 for `Unset`, 1 for `Enabled`.
    pub open spec fn rank(self) -> int {
        match self {
            FlagState::Unset => 0,
            FlagState::Enabled => 1,
        }
    }

    /// How `self` orders against `other`.
    pub open spec fn order(self, other: FlagState) -> Ordering {
        if self.rank() < other.rank() {
            Ordering::Less
        } else if self.rank() > other.rank() {
            Ordering::Greater
        } else {
            Ordering::Equal
        }
    }

    /// Compares two states; `Unset` is less than `Enabled`.
    pub fn cmp(&self, other: &FlagState) -> (r: Ordering)
        ensures
            r == self.order(*other),
    {
        match (*self, *other) {
            (FlagState::Unset, FlagState::Enabled) => Ordering::Less,
            (FlagState::Enabled, FlagState::Unset) => Ordering::Greater,
            _ => Ordering::Equal,
        }
    }
}

impl PartialOrd for FlagState {
    /// Compares two states; the answer is never `None`.
    fn partial_cmp(&self, other: &FlagState) -> (r: Option<Ordering>) {
        Some(self.cmp(other))
    }
}

/// `<` and its kin on states go by [`FlagState::order`].
impl vstd::std_specs::cmp::PartialOrdSpecImpl for FlagState {
    open spec fn obeys_partial_cmp_spec() -> bool {
        true
    }

    open spec fn partial_cmp_spec(&self, other: &FlagState) -> Option<Ordering> {
        Some(self.order(*other))
    }
}

} // verus!
