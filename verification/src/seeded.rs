//! A leaf component whose trace and constraints follow from a seed.
//!
//! The first column of the trace starts at a value that the witness holds
//! and grows by the seed from row to row. Each further column holds, in each
//! row, the square of the cell to its left, times the claim, plus the seed.
//! The constraints state this relation between neighbouring columns.

use crate::component::{accepts, cells, trace, width, Air, Component, ShapeError};
use crate::expression::{wrapped, Expression};
use crate::field::Scalar;
use crate::table::TableView;
use crate::writer::{TraceWriter, WriterView};
use vstd::arithmetic::div_mod::lemma_mod_bound;
use vstd::prelude::*;

verus! {

/// A leaf with `columns` columns and `rows` rows. Its claim is a scalar; its
/// witness is the claim and the value of the first cell.
#[derive(Clone, Copy, Debug, PartialEq, Eq)]
pub struct Seeded {
    pub rows: usize,
    pub columns: usize,
    pub seed: Scalar,
}

/// The value to the right of `value`: its square, times the claim, plus the
/// seed.
pub open spec fn advanced(value: Scalar, claim: Scalar, seed: Scalar) -> Scalar {
    value.product(value).product(claim).sum(seed)
}

/// The value of the first column at `row`: `start`, plus the seed for each
/// row before.
pub open spec fn opening(start: Scalar, seed: Scalar, row: int) -> Scalar
    decreases row,
{
    if row <= 0 {
        start
    } else {
        opening(start, seed, row - 1).sum(seed)
    }
}

/// The value of the cell at `(column, row)`.
pub open spec fn value_at(
    start: Scalar,
    claim: Scalar,
    seed: Scalar,
    column: int,
    row: int,
) -> Scalar
    decreases column,
{
    if column <= 0 {
        opening(start, seed, row)
    } else {
        advanced(value_at(start, claim, seed, column - 1, row), claim, seed)
    }
}

/// The row offset at which the relation between `column` and the column to
/// its left is stated: the next row, the same row, or the row before, in
/// turn.
pub open spec fn offset_of(column: int) -> int {
    if column % 3 == 0 {
        1
    } else if column % 3 == 1 {
        0
    } else {
        -1
    }
}

/// The constraint that relates `column` to the column to its left: the cell
/// in `column`, minus the advanced cell to its left, vanishes.
pub open spec fn relation(column: int, claim: Scalar, seed: Scalar) -> Expression {
    let offset = offset_of(column) as isize;
    let previous = Expression::Trace((column - 1) as usize, offset);
    Expression::Add(
        Box::new(Expression::Trace(column as usize, offset)),
        Box::new(
            Expression::Neg(
                Box::new(
                    Expression::Add(
                        Box::new(
                            Expression::Mul(
                                Box::new(Expression::Mul(Box::new(previous), Box::new(previous))),
                                Box::new(Expression::Constant(claim)),
                            ),
                        ),
                        Box::new(Expression::Constant(seed)),
                    ),
                ),
            ),
        ),
    )
}

/// Builds the constraint that relates `column` to the column to its left.
pub fn relation_at(column: usize, claim: &Scalar, seed: &Scalar) -> (constraint: Expression)
    requires
        column > 0,
    ensures
        constraint == relation(column as int, *claim, *seed),
{
    let offset: isize = if column % 3 == 0 {
        1
    } else if column % 3 == 1 {
        0
    } else {
        -1
    };
    Expression::Add(
        Box::new(Expression::Trace(column, offset)),
        Box::new(
            Expression::Neg(
                Box::new(
                    Expression::Add(
                        Box::new(
                            Expression::Mul(
                                Box::new(
                                    Expression::Mul(
                                        Box::new(Expression::Trace(column - 1, offset)),
                                        Box::new(Expression::Trace(column - 1, offset)),
                                    ),
                                ),
                                Box::new(Expression::Constant(*claim)),
                            ),
                        ),
                        Box::new(Expression::Constant(*seed)),
                    ),
                ),
            ),
        ),
    )
}

/// Whether the cell at `(column, row)` of the writer is among those written
/// when `rows_done` whole rows and `columns_done` cells of the next row are.
spec fn done(before: WriterView, column: int, row: int, rows_done: int, columns_done: int) -> bool {
    before.inside(column, row) && (row < rows_done || (row == rows_done && column < columns_done))
}

/// The writer after `rows_done` whole rows and `columns_done` cells of the
/// next row have been written.
spec fn partly(
    before: WriterView,
    cell: spec_fn(int, int) -> Scalar,
    rows_done: int,
    columns_done: int,
) -> WriterView {
    let window = before.window;
    WriterView {
        table: TableView {
            cells: Map::new(
                |at: (int, int)|
                    before.table.cells.dom().contains(at) || done(
                        before,
                        at.0 - window.column,
                        at.1 - window.row,
                        rows_done,
                        columns_done,
                    ),
                |at: (int, int)|
                    if done(
                        before,
                        at.0 - window.column,
                        at.1 - window.row,
                        rows_done,
                        columns_done,
                    ) {
                        cell(at.0 - window.column, at.1 - window.row)
                    } else {
                        before.table.cells[at]
                    },
            ),
            ..before.table
        },
        ..before
    }
}

impl Seeded {
    /// A leaf with the given dimensions and seed.
    pub fn new(rows: usize, columns: usize, seed: &Scalar) -> (leaf: Seeded)
        ensures
            leaf == (Seeded { rows, columns, seed: *seed }),
    {
        Seeded { rows, columns, seed: *seed }
    }
}

impl Air for Seeded {
    type Claim = Scalar;

    type Witness = (Scalar, Scalar);

    open spec fn spec_shape(&self) -> Result<(usize, usize), ShapeError> {
        Ok((self.columns, self.rows))
    }

    open spec fn spec_claim(&self, witness: &Self::Witness) -> Self::Claim {
        witness.0
    }

    /// One constraint for each column but the first.
    open spec fn spec_constraints(&self, claim: &Self::Claim) -> Seq<Expression> {
        Seq::new(
            if self.columns > 0 {
                (self.columns - 1) as nat
            } else {
                0
            },
            |index: int| relation(index + 1, *claim, self.seed),
        )
    }

    open spec fn spec_cell(&self, witness: &Self::Witness, column: int, row: int) -> Scalar {
        value_at(witness.1, witness.0, self.seed, column, row)
    }
}

impl Component for Seeded {
    proof fn constraints_fit(&self, claim: &Self::Claim) {
        assert forall|index: int| 0 <= index < self.spec_constraints(claim).len() implies (
        #[trigger] self.spec_constraints(claim)[index]).fits(width(self)) by {
            reveal_with_fuel(Expression::fits, 6);
        }
    }

    fn shape(&self) -> (shape: Result<(usize, usize), ShapeError>) {
        Ok((self.columns, self.rows))
    }

    fn claim(&self, witness: &Self::Witness) -> (claim: Self::Claim) {
        witness.0
    }

    fn constraints(&self, claim: &Self::Claim) -> (constraints: Vec<Expression>) {
        let mut constraints: Vec<Expression> = Vec::new();
        let mut column: usize = 1;
        while column < self.columns
            invariant
                1 <= column,
                column <= self.columns || column == 1,
                constraints.len() == column - 1,
                forall|index: int|
                    0 <= index < constraints.len() ==> #[trigger] constraints[index] == relation(
                        index + 1,
                        *claim,
                        self.seed,
                    ),
            decreases self.columns - column,
        {
            constraints.push(relation_at(column, claim, &self.seed));
            column += 1;
        }
        assert(constraints@ =~= self.spec_constraints(claim));
        constraints
    }

    fn write_trace<W: TraceWriter>(&self, writer: W, witness: &Self::Witness) -> (written: W) {
        let ghost before = writer.state();
        let ghost cell = cells(self, witness);
        let mut writer = writer;
        let mut first = witness.1;
        let mut row: usize = 0;
        assert(writer.state().table.cells =~= partly(before, cell, 0, 0).table.cells);
        while row < self.rows
            invariant
                row <= self.rows,
                before.wf(),
                before.blank(),
                before.columns() == self.columns,
                before.rows() == self.rows,
                cell == cells(self, witness),
                writer.state() == partly(before, cell, row as int, 0),
                writer.state().wf(),
                first == opening(witness.1, self.seed, row as int),
            decreases self.rows - row,
        {
            let mut value = first;
            let mut column: usize = 0;
            while column < self.columns
                invariant
                    column <= self.columns,
                    row < self.rows,
                    before.wf(),
                    before.blank(),
                    before.columns() == self.columns,
                    before.rows() == self.rows,
                    cell == cells(self, witness),
                    writer.state() == partly(before, cell, row as int, column as int),
                    writer.state().wf(),
                    value == value_at(witness.1, witness.0, self.seed, column as int, row as int),
                decreases self.columns - column,
            {
                assert(before.inside(column as int, row as int));
                writer.write(column, row, value);
                proof {
                    let expected = partly(before, cell, row as int, column + 1);
                    assert(cell(column as int, row as int) == value);
                    assert(writer.state().table.cells =~= expected.table.cells);
                }
                value = value.mul(&value).mul(&witness.0).add(&self.seed);
                column += 1;
            }
            proof {
                let expected = partly(before, cell, row + 1, 0);
                assert(writer.state().table.cells =~= expected.table.cells);
            }
            first = first.add(&self.seed);
            row += 1;
        }
        proof {
            let expected = before.filled(cell);
            assert(writer.state().table.cells =~= expected.table.cells);
        }
        writer
    }
}

/// Every witness satisfies the leaf: the trace that the leaf writes meets
/// the constraints that it states, whatever the claim and the first cell.
pub proof fn lemma_accepts_every_witness(leaf: &Seeded, witness: &(Scalar, Scalar))
    ensures
        accepts(leaf, witness),
{
    let claim = leaf.spec_claim(witness);
    let constraints = leaf.spec_constraints(&claim);
    let table = trace(leaf, witness);
    assert forall|index: int, row: int|
        0 <= index < constraints.len() && 0 <= row < table.rows
        implies #[trigger] constraints[index].eval(table, row) == Scalar::spec_zero() by {
        let column = index + 1;
        let offset = offset_of(column);
        let at = wrapped(row, offset, table.rows);
        lemma_mod_bound(row + offset, table.rows);
        assert(table.written(column, at));
        assert(table.written(column - 1, at));
        let here = table.value(column, at);
        let left = table.value(column - 1, at);
        assert(here == advanced(left, claim, leaf.seed));
        reveal_with_fuel(Expression::eval, 6);
        assert(constraints[index].eval(table, row) == here.sum(here.negation()));
        Scalar::lemma_sum_negation(here);
    }
}

} // verus!
