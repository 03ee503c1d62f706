//! Naming cells by what they hold.

use vstd::prelude::*;

verus! {

/// The cells whose content is a given text.
#[derive(Debug, PartialEq, Eq, Hash)]
pub struct ByContent<S> {
    text: S,
}

impl<S> ByContent<S> {
    /// The text that the cells are to hold.
    pub closed spec fn spec_text(&self) -> S {
        self.text
    }

    /// Names the cells that hold `text`.
    pub fn new(text: S) -> (r: Self)
        ensures
            r.spec_text() == text,
    {
        ByContent { text }
    }

    /// Returns the text that the cells are to hold.
    pub fn text(&self) -> (r: &S)
        ensures
            *r == self.spec_text(),
    {
        &self.text
    }
}

} // verus!
