//! The data of a table, as far as its shape goes.

use vstd::prelude::*;

verus! {

/// Data laid out in columns.
pub trait Records {
    /// Returns the number of columns.
    fn count_columns(&self) -> usize;
}

/// Data whose number of rows is known.
pub trait ExactRecords {
    /// Returns the number of rows.
    fn count_rows(&self) -> usize;
}

/// Whether `records` may give `count_rows` as its number of rows and
/// `count_columns` as its number of columns when asked.
pub open spec fn may_count<R: Records + ExactRecords>(
    records: &R,
    count_rows: usize,
    count_columns: usize,
) -> bool {
    &&& call_ensures(R::count_rows, (records,), count_rows)
    &&& call_ensures(R::count_columns, (records,), count_columns)
}

/// Records that have a shape and nothing in their cells.
#[derive(Clone, Copy, Debug, PartialEq, Eq, Structural)]
pub struct EmptyRecords {
    rows: usize,
    cols: usize,
}

impl EmptyRecords {
    /// The number of rows.
    pub closed spec fn spec_count_rows(&self) -> usize {
        self.rows
    }

    /// The number of columns.
    pub closed spec fn spec_count_columns(&self) -> usize {
        self.cols
    }

    /// Creates records with `rows` rows and `cols` columns.
    pub fn new(rows: usize, cols: usize) -> (records: Self)
        ensures
            records.spec_count_rows() == rows,
            records.spec_count_columns() == cols,
    {
        EmptyRecords { rows, cols }
    }
}

impl Records for EmptyRecords {
    fn count_columns(&self) -> (count: usize)
        ensures
            count == self.spec_count_columns(),
    {
        self.cols
    }
}

impl ExactRecords for EmptyRecords {
    fn count_rows(&self) -> (count: usize)
        ensures
            count == self.spec_count_rows(),
    {
        self.rows
    }
}

} // verus!
