//! A factory for locations.

use super::by_column_name::ByColumnName;
use super::by_content::ByContent;
use vstd::prelude::*;

verus! {

/// An abstract factory for locations, to be used to find different things on the table.
#[derive(Clone, Copy, Debug, Default, PartialEq, Eq, PartialOrd, Ord, Hash)]
pub struct Locator;

impl Locator {
    /// Constructs a new location searcher for the cells with a given content.
    pub fn content<S>(text: S) -> (r: ByContent<S>)
        ensures
            r.spec_text() == text,
    {
        ByContent::new(text)
    }

    /// Constructs a new location searcher for a column by its header.
    pub fn column<S>(text: S) -> (r: ByColumnName<S>)
        ensures
            r.spec_text() == text,
    {
        ByColumnName::new(text)
    }
}

} // verus!
