//! Settings that apply to chosen cells.

use crate::grid::config::entity::Entity;
use vstd::prelude::*;

verus! {

/// A setting that changes a configuration of type `C` for the cells that a
/// selection holds, given the records of type `R` that the table shows.
pub trait CellOption<R, C> {
    /// Applies the setting to the cells that `entity` selects.
    fn change(self, records: &mut R, cfg: &mut C, entity: Entity);
}

} // verus!
