//! Naming a column by its header.

use vstd::prelude::*;

verus! {

/// The column whose header is a given text.
#[derive(Debug, PartialEq, Eq, Hash)]
pub struct ByColumnName<S> {
    text: S,
}

impl<S> ByColumnName<S> {
    /// The text that the header is to hold.
    pub closed spec fn spec_text(&self) -> S {
        self.text
    }

    /// Names the column whose header holds `text`.
    pub fn new(text: S) -> (r: Self)
        ensures
            r.spec_text() == text,
    {
        ByColumnName { text }
    }

    /// Returns the text that the header is to hold.
    pub fn text(&self) -> (r: &S)
        ensures
            *r == self.spec_text(),
    {
        &self.text
    }
}

} // verus!
