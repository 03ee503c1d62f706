//! Settings that apply to a table as a whole.

use vstd::prelude::*;

verus! {

/// A setting that changes a configuration of type `C` for a whole table, given
/// the records of type `R` that the table shows and its dimension of type `D`.
pub trait TableOption<R, D, C> {
    /// Applies the setting to the table.
    fn change(self, records: &mut R, cfg: &mut C, dimension: &mut D);
}

} // verus!
