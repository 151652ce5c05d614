//! The trace matrix: a grid of scalars, `columns` wide and `rows` long.

use crate::field::Scalar;
use vstd::prelude::*;

verus! {

/// What a trace table holds: its dimensions, and the cells written so far.
/// The domain of `cells` is the set of written cells, addressed `(column, row)`.
pub struct TableView {
    pub columns: int,
    pub rows: int,
    pub cells: Map<(int, int), Scalar>,
}

impl TableView {
    /// Whether `(column, row)` lies within the table.
    pub open spec fn inside(self, column: int, row: int) -> bool {
        0 <= column < self.columns && 0 <= row < self.rows
    }

    /// Whether `(column, row)` has been written.
    pub open spec fn written(self, column: int, row: int) -> bool {
        self.cells.dom().contains((column, row))
    }

    /// The value at `(column, row)`: what was written there, else zero.
    pub open spec fn value(self, column: int, row: int) -> Scalar {
        if self.written(column, row) {
            self.cells[(column, row)]
        } else {
            Scalar::spec_zero()
        }
    }

    /// Only cells within the table are written.
    pub open spec fn wf(self) -> bool {
        &&& 0 <= self.columns <= usize::MAX
        &&& 0 <= self.rows <= usize::MAX
        &&& forall|column: int, row: int| #[trigger]
            self.written(column, row) ==> self.inside(column, row)
    }

    /// Every cell of the table has been written.
    pub open spec fn complete(self) -> bool {
        forall|column: int, row: int| #[trigger]
            self.inside(column, row) ==> self.written(column, row)
    }

    /// A table of the given dimensions with no cell written.
    pub open spec fn blank(columns: int, rows: int) -> TableView {
        TableView { columns, rows, cells: Map::empty() }
    }

    /// The table after `value` is written at `(column, row)`.
    pub open spec fn put(self, column: int, row: int, value: Scalar) -> TableView {
        TableView { cells: self.cells.insert((column, row), value), ..self }
    }

    /// Whether two tables have the same dimensions and hold the same value
    /// in every cell.
    pub open spec fn same_values(self, other: TableView) -> bool {
        &&& self.columns == other.columns
        &&& self.rows == other.rows
        &&& forall|column: int, row: int| #[trigger]
            self.inside(column, row) ==> self.value(column, row) == other.value(column, row)
    }
}

/// Replaces one cell of a grid that is stored column by column.
fn store(values: &mut Vec<Vec<Scalar>>, column: usize, row: usize, value: Scalar)
    requires
        column < old(values).len(),
        row < old(values)[column as int].len(),
    ensures
        final(values)@ == old(values)@.update(
            column as int,
            final(values)[column as int],
        ),
        final(values)[column as int]@ == old(values)[column as int]@.update(row as int, value),
    no_unwind
{
    values[column][row] = value;
}

/// A trace matrix, stored column by column. A fresh table holds zero in
/// every cell and records which cells have been written since.
pub struct TraceTable {
    columns: usize,
    rows: usize,
    values: Vec<Vec<Scalar>>,
    written: Ghost<Set<(int, int)>>,
}

impl View for TraceTable {
    type V = TableView;

    closed spec fn view(&self) -> TableView {
        TableView {
            columns: self.columns as int,
            rows: self.rows as int,
            cells: Map::new(
                |cell: (int, int)| self.written@.contains(cell),
                |cell: (int, int)| self.values[cell.0][cell.1],
            ),
        }
    }
}

impl TraceTable {
    #[verifier::type_invariant]
    closed spec fn valid(self) -> bool {
        &&& self.values.len() == self.columns
        &&& forall|column: int|
            0 <= column < self.columns ==> (#[trigger] self.values[column]).len() == self.rows
        &&& forall|column: int, row: int| #[trigger]
            self.written@.contains((column, row)) ==> 0 <= column < self.columns && 0 <= row
                < self.rows
        &&& forall|column: int, row: int|
            0 <= column < self.columns && 0 <= row < self.rows && !self.written@.contains(
                (column, row),
            ) ==> #[trigger] self.values[column][row] == Scalar::spec_zero()
    }

    /// A table of the given dimensions, zero in every cell, nothing written.
    pub fn new(columns: usize, rows: usize) -> (table: TraceTable)
        ensures
            table@ == TableView::blank(columns as int, rows as int),
            table@.wf(),
    {
        let mut values: Vec<Vec<Scalar>> = Vec::new();
        let mut column: usize = 0;
        while column < columns
            invariant
                column <= columns,
                values.len() == column,
                forall|c: int| 0 <= c < column ==> (#[trigger] values[c]).len() == rows,
                forall|c: int, r: int|
                    0 <= c < column && 0 <= r < rows ==> #[trigger] values[c][r]
                        == Scalar::spec_zero(),
            decreases columns - column,
        {
            let mut cells: Vec<Scalar> = Vec::new();
            let mut row: usize = 0;
            while row < rows
                invariant
                    row <= rows,
                    cells.len() == row,
                    forall|r: int| 0 <= r < row ==> #[trigger] cells[r] == Scalar::spec_zero(),
                decreases rows - row,
            {
                cells.push(Scalar::zero());
                row += 1;
            }
            values.push(cells);
            column += 1;
        }
        let table = TraceTable { columns, rows, values, written: Ghost(Set::empty()) };
        assert(table@.cells =~= Map::empty());
        table
    }

    pub fn columns(&self) -> (n: usize)
        ensures
            n == self@.columns,
            self@.wf(),
    {
        proof {
            use_type_invariant(self);
        }
        self.columns
    }

    pub fn rows(&self) -> (n: usize)
        ensures
            n == self@.rows,
            self@.wf(),
    {
        proof {
            use_type_invariant(self);
        }
        self.rows
    }

    /// The value at `(column, row)`.
    pub fn get(&self, column: usize, row: usize) -> (value: Scalar)
        requires
            self@.inside(column as int, row as int),
        ensures
            value == self@.value(column as int, row as int),
    {
        proof {
            use_type_invariant(self);
        }
        self.values[column][row]
    }

    /// Writes `value` at `(column, row)`.
    pub fn set(&mut self, column: usize, row: usize, value: Scalar)
        requires
            old(self)@.inside(column as int, row as int),
        ensures
            final(self)@ == old(self)@.put(column as int, row as int, value),
            final(self)@.wf(),
    {
        proof {
            use_type_invariant(&*self);
        }
        proof {
            self.written@ = self.written@.insert((column as int, row as int));
        }
        store(&mut self.values, column, row, value);
        assert(self@.cells =~= old(self)@.cells.insert((column as int, row as int), value));
    }

    /// Whether the two tables have the same dimensions and the same value
    /// in every cell.
    pub fn equals(&self, other: &TraceTable) -> (same: bool)
        ensures
            same == self@.same_values(other@),
    {
        proof {
            use_type_invariant(self);
            use_type_invariant(other);
        }
        if self.columns != other.columns || self.rows != other.rows {
            return false;
        }
        let mut column: usize = 0;
        while column < self.columns
            invariant
                column <= self.columns,
                self.columns == other.columns,
                self.rows == other.rows,
                forall|c: int, r: int|
                    0 <= c < column && 0 <= r < self.rows ==> self@.value(c, r) == other@.value(
                        c,
                        r,
                    ),
            decreases self.columns - column,
        {
            let mut row: usize = 0;
            while row < self.rows
                invariant
                    row <= self.rows,
                    column < self.columns,
                    self.columns == other.columns,
                    self.rows == other.rows,
                    forall|r: int|
                        0 <= r < row ==> self@.value(column as int, r) == other@.value(
                            column as int,
                            r,
                        ),
                decreases self.rows - row,
            {
                if self.get(column, row) != other.get(column, row) {
                    assert(self@.inside(column as int, row as int));
                    return false;
                }
                row += 1;
            }
            column += 1;
        }
        true
    }
}

/// Two tables are equal when they have the same dimensions and hold the
/// same value in every cell.
impl PartialEq for TraceTable {
    fn eq(&self, other: &TraceTable) -> (same: bool) {
        self.equals(other)
    }
}

impl vstd::std_specs::cmp::PartialEqSpecImpl for TraceTable {
    open spec fn obeys_eq_spec() -> bool {
        true
    }

    open spec fn eq_spec(&self, other: &TraceTable) -> bool {
        self@.same_values(other@)
    }
}

} // verus!
