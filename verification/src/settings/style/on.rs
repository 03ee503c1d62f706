//! Marks for what a builder has been given so far.

use vstd::prelude::*;

verus! {

/// A mark in the type of a builder that says whether one side of the border
/// has been given a color.
///
/// There are two marks: `()` for a side that has none yet, and [`On`] for a
/// side that has one.
pub trait SideState {
    /// Whether the mark stands for a side that has a color.
    spec fn is_set() -> bool;
}

/// The mark of a side that has been given a color.
#[derive(Clone, Copy, Debug, Default, PartialEq, Eq, PartialOrd, Ord, Hash)]
pub struct On;

impl SideState for On {
    open spec fn is_set() -> bool {
        true
    }
}

impl SideState for () {
    open spec fn is_set() -> bool {
        false
    }
}

} // verus!
