//! Positions of a grid and selections of them.

use vstd::prelude::*;

verus! {

/// A cell of a grid, by row and column, both counted from zero.
pub type Position = (usize, usize);

/// A selection of cells that does not depend on what the cells hold.
#[derive(Clone, Copy, Debug, PartialEq, Eq, Hash, Structural)]
pub enum Entity {
    /// Every cell of the grid.
    Global,
    /// Every cell of the column with this index.
    Column(usize),
    /// Every cell of the row with this index.
    Row(usize),
    /// The cell in this row and this column.
    Cell(usize, usize),
}

/// Whether `first` comes before `second` when a grid is read row by row, each
/// row from its first column on.
pub open spec fn comes_before(first: Position, second: Position) -> bool {
    first.0 < second.0 || (first.0 == second.0 && first.1 < second.1)
}

/// Whether `positions` lists cells in reading order, none of them twice.
pub open spec fn in_reading_order(positions: Seq<Position>) -> bool {
    forall|i: int, j: int|
        0 <= i < j < positions.len() ==> comes_before(
            #[trigger] positions[i],
            #[trigger] positions[j],
        )
}

/// The cells of a grid with `count_rows` rows and `count_cols` columns.
pub open spec fn grid_cells(count_rows: usize, count_cols: usize) -> Set<Position> {
    Set::new(|pos: Position| pos.0 < count_rows && pos.1 < count_cols)
}

impl Entity {
    /// Whether the selection holds `pos` in a grid with `count_rows` rows and
    /// `count_cols` columns.
    ///
    /// A selection only ever holds cells of the grid: a row or a column that
    /// the grid does not have holds nothing, and in a grid without rows or
    /// without columns nothing holds anything.
    pub open spec fn covers(self, pos: Position, count_rows: usize, count_cols: usize) -> bool {
        &&& pos.0 < count_rows
        &&& pos.1 < count_cols
        &&& match self {
            Entity::Global => true,
            Entity::Column(col) => pos.1 == col,
            Entity::Row(row) => pos.0 == row,
            Entity::Cell(row, col) => pos.0 == row && pos.1 == col,
        }
    }

    /// The cells that the selection holds in a grid with `count_rows` rows and
    /// `count_cols` columns.
    pub open spec fn cells(self, count_rows: usize, count_cols: usize) -> Set<Position> {
        Set::new(|pos: Position| self.covers(pos, count_rows, count_cols))
    }

    /// Lists the cells that the selection holds in a grid with `count_rows`
    /// rows and `count_cols` columns, in reading order.
    ///
    /// The two clauses leave room for one list only: it holds the selected
    /// cells and no others, and reading order fixes where each of them stands.
    pub fn iter(&self, count_rows: usize, count_cols: usize) -> (positions: Vec<Position>)
        ensures
            forall|pos: Position|
                positions@.contains(pos) <==> self.covers(pos, count_rows, count_cols),
            in_reading_order(positions@),
    {
        match *self {
            Entity::Global => block((0, count_rows), (0, count_cols)),
            Entity::Column(col) => {
                if col < count_cols {
                    block((0, count_rows), (col, col + 1))
                } else {
                    block((0, 0), (0, 0))
                }
            },
            Entity::Row(row) => {
                if row < count_rows {
                    block((row, row + 1), (0, count_cols))
                } else {
                    block((0, 0), (0, 0))
                }
            },
            Entity::Cell(row, col) => {
                if row < count_rows && col < count_cols {
                    block((row, row + 1), (col, col + 1))
                } else {
                    block((0, 0), (0, 0))
                }
            },
        }
    }

    /// The whole-grid selection holds exactly the cells of the grid.
    pub proof fn lemma_global_cells(count_rows: usize, count_cols: usize)
        ensures
            Entity::Global.cells(count_rows, count_cols) == grid_cells(count_rows, count_cols),
    {
        assert(Entity::Global.cells(count_rows, count_cols) =~= grid_cells(count_rows, count_cols));
    }

    /// A selection holds nothing where the grid has no rows or no columns, and
    /// a row, a column or a cell outside the grid holds nothing either.
    pub proof fn lemma_cells_outside_grid(self, count_rows: usize, count_cols: usize)
        requires
            count_rows == 0 || count_cols == 0 || match self {
                Entity::Global => false,
                Entity::Column(col) => col >= count_cols,
                Entity::Row(row) => row >= count_rows,
                Entity::Cell(row, col) => row >= count_rows || col >= count_cols,
            },
        ensures
            self.cells(count_rows, count_cols) == Set::<Position>::empty(),
    {
        assert(self.cells(count_rows, count_cols) =~= Set::<Position>::empty());
    }
}

/// Whether `pos` lies in the rows `rows.0 .. rows.1` and the columns
/// `cols.0 .. cols.1`.
spec fn in_block(pos: Position, rows: (usize, usize), cols: (usize, usize)) -> bool {
    rows.0 <= pos.0 < rows.1 && cols.0 <= pos.1 < cols.1
}

/// Whether `pos` lies in the part of the block that has been listed when the
/// rows before `row` are done and the row `row` is done up to the column `col`.
spec fn listed(
    pos: Position,
    rows: (usize, usize),
    cols: (usize, usize),
    row: usize,
    col: usize,
) -> bool {
    in_block(pos, rows, cols) && (pos.0 < row || (pos.0 == row && pos.1 < col))
}

/// Lists the cells in the rows `rows.0 .. rows.1` and the columns
/// `cols.0 .. cols.1`, in reading order.
fn block(rows: (usize, usize), cols: (usize, usize)) -> (positions: Vec<Position>)
    ensures
        forall|pos: Position| positions@.contains(pos) <==> in_block(pos, rows, cols),
        in_reading_order(positions@),
{
    let mut positions: Vec<Position> = Vec::new();
    let mut row: usize = rows.0;
    while row < rows.1
        invariant
            rows.0 <= row,
            forall|pos: Position|
                positions@.contains(pos) <==> listed(pos, rows, cols, row, cols.0),
            in_reading_order(positions@),
        decreases rows.1 - row,
    {
        let mut col: usize = cols.0;
        while col < cols.1
            invariant
                rows.0 <= row < rows.1,
                cols.0 <= col,
                forall|pos: Position|
                    positions@.contains(pos) <==> listed(pos, rows, cols, row, col),
                in_reading_order(positions@),
            decreases cols.1 - col,
        {
            let ghost before = positions@;
            positions.push((row, col));
            proof {
                assert forall|pos: Position|
                    positions@.contains(pos) <==> listed(
                        pos,
                        rows,
                        cols,
                        row,
                        (col + 1) as usize,
                    ) by {
                    if before.contains(pos) {
                        let i = choose|i: int| 0 <= i < before.len() && before[i] == pos;
                        assert(positions@[i] == pos);
                    }
                    if pos == (row, col) {
                        assert(positions@[before.len() as int] == pos);
                    }
                    if positions@.contains(pos) {
                        let i = choose|i: int| 0 <= i < positions@.len() && positions@[i] == pos;
                        if i < before.len() {
                            assert(before[i] == pos);
                        }
                    }
                }
                assert forall|i: int, j: int| 0 <= i < j < positions@.len() implies comes_before(
                    #[trigger] positions@[i],
                    #[trigger] positions@[j],
                ) by {
                    assert(before[i] == positions@[i]);
                    if j < before.len() {
                        assert(before[j] == positions@[j]);
                    } else {
                        assert(before.contains(before[i]));
                    }
                }
            }
            col += 1;
        }
        row += 1;
    }
    positions
}

} // verus!
