//! Symbolic constraint expressions over the cells of a trace.

use crate::field::Scalar;
use crate::table::{TableView, TraceTable};
use vstd::arithmetic::div_mod::{
    lemma_fundamental_div_mod, lemma_fundamental_div_mod_converse, lemma_mod_bound,
};
use vstd::prelude::*;

verus! {

/// A polynomial expression over trace cells.
///
/// `Trace(column, offset)` refers, at row `r` of a trace with `n` rows, to
/// the cell in `column` at row `(r + offset) mod n`.
#[derive(Debug, PartialEq, Eq)]
pub enum Expression {
    Constant(Scalar),
    Trace(usize, isize),
    Add(Box<Expression>, Box<Expression>),
    Neg(Box<Expression>),
    Mul(Box<Expression>, Box<Expression>),
}

/// The row that is `offset` rows after `row`, in a cycle of `rows` rows.
pub open spec fn wrapped(row: int, offset: int, rows: int) -> int {
    (row + offset) % rows
}

/// Computes the row that is `offset` rows after `row`, in a cycle of `rows`
/// rows.
pub fn wrap_row(row: usize, offset: isize, rows: usize) -> (target: usize)
    requires
        row < rows,
    ensures
        target as int == wrapped(row as int, offset as int, rows as int),
        target < rows,
{
    let length: u128 = rows as u128;
    let sum: i128 = row as i128 + offset as i128;
    if sum >= 0 {
        let ahead: u128 = sum as u128 % length;
        ahead as usize
    } else {
        let distance: u128 = (-sum) as u128;
        let behind: u128 = distance % length;
        proof {
            let quotient = distance as int / length as int;
            lemma_fundamental_div_mod(distance as int, length as int);
            assert(distance as int == length as int * quotient + behind as int);
            if behind == 0 {
                assert(sum as int == (-quotient) * length as int + 0) by (nonlinear_arith)
                    requires
                        sum as int == -(distance as int),
                        distance as int == length as int * quotient,
                ;
                lemma_fundamental_div_mod_converse(sum as int, length as int, -quotient, 0);
            } else {
                assert(sum as int == (-quotient - 1) * length as int + (length as int
                    - behind as int)) by (nonlinear_arith)
                    requires
                        sum as int == -(distance as int),
                        distance as int == length as int * quotient + behind as int,
                ;
                lemma_fundamental_div_mod_converse(
                    sum as int,
                    length as int,
                    -quotient - 1,
                    length as int - behind as int,
                );
            }
        }
        if behind == 0 {
            0
        } else {
            (length - behind) as usize
        }
    }
}

impl Expression {
    /// Whether every trace cell that the expression refers to lies in a
    /// column below `columns`.
    pub open spec fn fits(self, columns: int) -> bool
        decreases self,
    {
        match self {
            Expression::Constant(_) => true,
            Expression::Trace(column, _) => column < columns,
            Expression::Add(left, right) => left.fits(columns) && right.fits(columns),
            Expression::Neg(inner) => inner.fits(columns),
            Expression::Mul(left, right) => left.fits(columns) && right.fits(columns),
        }
    }

    /// The expression with `offset` added to the column of every trace cell
    /// it refers to, and nothing else changed.
    pub open spec fn shifted(self, offset: int) -> Expression
        decreases self,
    {
        match self {
            Expression::Constant(value) => Expression::Constant(value),
            Expression::Trace(column, row) => Expression::Trace((column + offset) as usize, row),
            Expression::Add(left, right) => Expression::Add(
                Box::new(left.shifted(offset)),
                Box::new(right.shifted(offset)),
            ),
            Expression::Neg(inner) => Expression::Neg(Box::new(inner.shifted(offset))),
            Expression::Mul(left, right) => Expression::Mul(
                Box::new(left.shifted(offset)),
                Box::new(right.shifted(offset)),
            ),
        }
    }

    /// The trace cells that the expression refers to, as `(column, offset)`,
    /// from left to right.
    pub open spec fn references(self) -> Seq<(int, int)>
        decreases self,
    {
        match self {
            Expression::Constant(_) => Seq::empty(),
            Expression::Trace(column, row) => seq![(column as int, row as int)],
            Expression::Add(left, right) => left.references() + right.references(),
            Expression::Neg(inner) => inner.references(),
            Expression::Mul(left, right) => left.references() + right.references(),
        }
    }

    /// The value of the expression at `row` of `table`.
    pub open spec fn eval(self, table: TableView, row: int) -> Scalar
        decreases self,
    {
        match self {
            Expression::Constant(value) => value,
            Expression::Trace(column, offset) => table.value(
                column as int,
                wrapped(row, offset as int, table.rows),
            ),
            Expression::Add(left, right) => left.eval(table, row).sum(right.eval(table, row)),
            Expression::Neg(inner) => inner.eval(table, row).negation(),
            Expression::Mul(left, right) => left.eval(table, row).product(right.eval(table, row)),
        }
    }

    /// Whether every trace cell that the expression refers to lies in a
    /// column below `columns`.
    pub fn within(&self, columns: usize) -> (fits: bool)
        ensures
            fits == self.fits(columns as int),
        decreases self,
    {
        match self {
            Expression::Constant(_) => true,
            Expression::Trace(column, _) => *column < columns,
            Expression::Add(left, right) => left.within(columns) && right.within(columns),
            Expression::Neg(inner) => inner.within(columns),
            Expression::Mul(left, right) => left.within(columns) && right.within(columns),
        }
    }

    /// Rewrites every trace cell reference `(c, j)` to `(c + offset, j)`.
    /// All other nodes, and the shape of the tree, stay as they are.
    pub fn shift_columns(&self, offset: usize) -> (shifted: Expression)
        requires
            self.fits(usize::MAX + 1 - offset),
        ensures
            shifted == self.shifted(offset as int),
        decreases self,
    {
        match self {
            Expression::Constant(value) => Expression::Constant(*value),
            Expression::Trace(column, row) => Expression::Trace(*column + offset, *row),
            Expression::Add(left, right) => Expression::Add(
                Box::new(left.shift_columns(offset)),
                Box::new(right.shift_columns(offset)),
            ),
            Expression::Neg(inner) => Expression::Neg(Box::new(inner.shift_columns(offset))),
            Expression::Mul(left, right) => Expression::Mul(
                Box::new(left.shift_columns(offset)),
                Box::new(right.shift_columns(offset)),
            ),
        }
    }

    /// A copy of the expression.
    pub fn duplicate(&self) -> (copy: Expression)
        ensures
            copy == *self,
        decreases self,
    {
        match self {
            Expression::Constant(value) => Expression::Constant(*value),
            Expression::Trace(column, row) => Expression::Trace(*column, *row),
            Expression::Add(left, right) => Expression::Add(
                Box::new(left.duplicate()),
                Box::new(right.duplicate()),
            ),
            Expression::Neg(inner) => Expression::Neg(Box::new(inner.duplicate())),
            Expression::Mul(left, right) => Expression::Mul(
                Box::new(left.duplicate()),
                Box::new(right.duplicate()),
            ),
        }
    }

    /// Whether the two expressions are the same tree.
    pub fn equals(&self, other: &Expression) -> (same: bool)
        ensures
            same == (*self == *other),
        decreases self,
    {
        match (self, other) {
            (Expression::Constant(a), Expression::Constant(b)) => *a == *b,
            (Expression::Trace(column, row), Expression::Trace(other_column, other_row)) => {
                *column == *other_column && *row == *other_row
            },
            (Expression::Add(left, right), Expression::Add(other_left, other_right)) => {
                left.equals(other_left) && right.equals(other_right)
            },
            (Expression::Neg(inner), Expression::Neg(other_inner)) => inner.equals(other_inner),
            (Expression::Mul(left, right), Expression::Mul(other_left, other_right)) => {
                left.equals(other_left) && right.equals(other_right)
            },
            _ => false,
        }
    }

    /// Evaluates the expression at `row` of `table`, resolving each trace
    /// cell reference cyclically.
    pub fn evaluate(&self, table: &TraceTable, row: usize) -> (value: Scalar)
        requires
            self.fits(table@.columns),
            row < table@.rows,
        ensures
            value == self.eval(table@, row as int),
        decreases self,
    {
        match self {
            Expression::Constant(value) => *value,
            Expression::Trace(column, offset) => {
                let target = wrap_row(row, *offset, table.rows());
                table.get(*column, target)
            },
            Expression::Add(left, right) => left.evaluate(table, row).add(
                &right.evaluate(table, row),
            ),
            Expression::Neg(inner) => inner.evaluate(table, row).neg(),
            Expression::Mul(left, right) => left.evaluate(table, row).mul(
                &right.evaluate(table, row),
            ),
        }
    }

    /// An expression that fits below a bound fits below every larger bound.
    pub proof fn lemma_fits_monotonic(self, columns: int, more: int)
        requires
            self.fits(columns),
            columns <= more,
        ensures
            self.fits(more),
        decreases self,
    {
        match self {
            Expression::Constant(_) => {},
            Expression::Trace(_, _) => {},
            Expression::Add(left, right) => {
                left.lemma_fits_monotonic(columns, more);
                right.lemma_fits_monotonic(columns, more);
            },
            Expression::Neg(inner) => {
                inner.lemma_fits_monotonic(columns, more);
            },
            Expression::Mul(left, right) => {
                left.lemma_fits_monotonic(columns, more);
                right.lemma_fits_monotonic(columns, more);
            },
        }
    }

    /// Shifting moves the bound below which an expression fits by the same
    /// amount.
    pub proof fn lemma_shifted_fits(self, columns: int, offset: int)
        requires
            self.fits(columns),
            0 <= offset,
            columns + offset <= usize::MAX + 1,
        ensures
            self.shifted(offset).fits(columns + offset),
        decreases self,
    {
        match self {
            Expression::Constant(_) => {},
            Expression::Trace(_, _) => {},
            Expression::Add(left, right) => {
                left.lemma_shifted_fits(columns, offset);
                right.lemma_shifted_fits(columns, offset);
            },
            Expression::Neg(inner) => {
                inner.lemma_shifted_fits(columns, offset);
            },
            Expression::Mul(left, right) => {
                left.lemma_shifted_fits(columns, offset);
                right.lemma_shifted_fits(columns, offset);
            },
        }
    }

    /// Shifting by `first` and then by `second` is shifting by their sum.
    pub proof fn lemma_shifted_twice(self, columns: int, first: int, second: int)
        requires
            self.fits(columns),
            0 <= first,
            0 <= second,
            columns + first + second <= usize::MAX + 1,
        ensures
            self.shifted(first).shifted(second) == self.shifted(first + second),
        decreases self,
    {
        match self {
            Expression::Constant(_) => {},
            Expression::Trace(_, _) => {},
            Expression::Add(left, right) => {
                left.lemma_shifted_twice(columns, first, second);
                right.lemma_shifted_twice(columns, first, second);
            },
            Expression::Neg(inner) => {
                inner.lemma_shifted_twice(columns, first, second);
            },
            Expression::Mul(left, right) => {
                left.lemma_shifted_twice(columns, first, second);
                right.lemma_shifted_twice(columns, first, second);
            },
        }
    }

    /// Shifting adds `offset` to the column of every reference, keeps every
    /// row offset, and neither adds, drops nor reorders a reference.
    pub proof fn lemma_shifted_references(self, columns: int, offset: int)
        requires
            self.fits(columns),
            0 <= offset,
            columns + offset <= usize::MAX + 1,
        ensures
            self.shifted(offset).references().len() == self.references().len(),
            forall|i: int|
                0 <= i < self.references().len() ==> #[trigger] self.shifted(
                    offset,
                ).references()[i] == (self.references()[i].0 + offset, self.references()[i].1),
        decreases self,
    {
        match self {
            Expression::Constant(_) => {},
            Expression::Trace(_, _) => {},
            Expression::Add(left, right) => {
                left.lemma_shifted_references(columns, offset);
                right.lemma_shifted_references(columns, offset);
            },
            Expression::Neg(inner) => {
                inner.lemma_shifted_references(columns, offset);
            },
            Expression::Mul(left, right) => {
                left.lemma_shifted_references(columns, offset);
                right.lemma_shifted_references(columns, offset);
            },
        }
    }

    /// Where a table holds, `offset` columns further on, what another table
    /// holds in its first `columns` columns, the shifted expression has on
    /// the first table the value that the expression has on the other.
    pub proof fn lemma_eval_shifted(
        self,
        columns: int,
        offset: int,
        outer: TableView,
        inner: TableView,
        row: int,
    )
        requires
            self.fits(columns),
            0 <= offset,
            columns + offset <= usize::MAX + 1,
            0 < inner.rows == outer.rows,
            forall|column: int, at: int|
                0 <= column < columns && 0 <= at < inner.rows ==> #[trigger] outer.value(
                    column + offset,
                    at,
                ) == inner.value(column, at),
        ensures
            self.shifted(offset).eval(outer, row) == self.eval(inner, row),
        decreases self,
    {
        match self {
            Expression::Constant(_) => {},
            Expression::Trace(column, step) => {
                lemma_mod_bound(row + step as int, inner.rows);
                let at = wrapped(row, step as int, inner.rows);
                assert(outer.value(column as int + offset, at) == inner.value(column as int, at));
            },
            Expression::Add(left, right) => {
                left.lemma_eval_shifted(columns, offset, outer, inner, row);
                right.lemma_eval_shifted(columns, offset, outer, inner, row);
            },
            Expression::Neg(inner_expression) => {
                inner_expression.lemma_eval_shifted(columns, offset, outer, inner, row);
            },
            Expression::Mul(left, right) => {
                left.lemma_eval_shifted(columns, offset, outer, inner, row);
                right.lemma_eval_shifted(columns, offset, outer, inner, row);
            },
        }
    }

    /// Shifting by no column changes nothing.
    pub proof fn lemma_shifted_by_zero(self)
        ensures
            self.shifted(0) == self,
        decreases self,
    {
        match self {
            Expression::Constant(_) => {},
            Expression::Trace(_, _) => {},
            Expression::Add(left, right) => {
                left.lemma_shifted_by_zero();
                right.lemma_shifted_by_zero();
            },
            Expression::Neg(inner) => {
                inner.lemma_shifted_by_zero();
            },
            Expression::Mul(left, right) => {
                left.lemma_shifted_by_zero();
                right.lemma_shifted_by_zero();
            },
        }
    }
}

impl Clone for Expression {
    fn clone(&self) -> (copy: Expression)
        ensures
            copy == *self,
    {
        self.duplicate()
    }
}

} // verus!
