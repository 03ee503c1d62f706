//! The colors a border can be given.

use vstd::prelude::*;

verus! {

/// A terminal color.
///
/// The library never looks inside a color: it stores the value it was handed
/// and hands the same value on. Two colors are equal exactly when they are the
/// same variant.
#[derive(Clone, Copy, Debug, PartialEq, Eq, PartialOrd, Ord, Hash, Structural)]
pub enum Color {
    Black,
    Red,
    Green,
    Yellow,
    Blue,
    Magenta,
    Cyan,
    White,
}

} // verus!
