//! Two components side by side: the columns of the left, then the columns
//! of the right, over the same rows.

use crate::component::{accepts, cells, height, trace, width, Air, Component, ShapeError};
use crate::expression::Expression;
use crate::field::Scalar;
use crate::writer::{Mapped, TraceWriter};
use vstd::pervasive::unreached;
use vstd::prelude::*;

verus! {

/// The composition of two components that places the trace of `right` to
/// the right of the trace of `left`. Its claim and its witness are the pairs
/// of its children's.
#[derive(Clone, Debug, PartialEq, Eq)]
pub struct Horizontal<Left: Component, Right: Component> {
    left: Left,
    right: Right,
}

impl<Left: Component, Right: Component> Horizontal<Left, Right> {
    /// The left child.
    pub closed spec fn spec_left(&self) -> Left {
        self.left
    }

    /// The right child.
    pub closed spec fn spec_right(&self) -> Right {
        self.right
    }

    /// Composes the two components. Whether they go together shows when the
    /// shape is asked for.
    pub fn new(left: Left, right: Right) -> (composed: Self)
        ensures
            composed.spec_left() == left,
            composed.spec_right() == right,
    {
        Horizontal { left, right }
    }

    /// The left child.
    pub fn left(&self) -> (left: &Left)
        ensures
            *left == self.spec_left(),
    {
        &self.left
    }

    /// The right child.
    pub fn right(&self) -> (right: &Right)
        ensures
            *right == self.spec_right(),
    {
        &self.right
    }
}

/// The constraints of a right child as they stand in the composition: each
/// with `offset` added to the columns that it refers to.
pub open spec fn readdressed(constraints: Seq<Expression>, offset: int) -> Seq<Expression> {
    constraints.map_values(|constraint: Expression| constraint.shifted(offset))
}

impl<Left: Component, Right: Component> Air for Horizontal<Left, Right> {
    type Claim = (Left::Claim, Right::Claim);

    type Witness = (Left::Witness, Right::Witness);

    /// The children's columns added up, over the rows that they share. A
    /// child without a shape gives none to the composition, the left before
    /// the right; children with different numbers of rows do not compose.
    open spec fn spec_shape(&self) -> Result<(usize, usize), ShapeError> {
        match (self.spec_left().spec_shape(), self.spec_right().spec_shape()) {
            (Err(error), _) => Err(error),
            (Ok(_), Err(error)) => Err(error),
            (Ok(left), Ok(right)) => {
                if left.1 != right.1 {
                    Err(ShapeError::RowMismatch { left: left.1, right: right.1 })
                } else if left.0 + right.0 > usize::MAX {
                    Err(ShapeError::TooManyColumns)
                } else {
                    Ok(((left.0 + right.0) as usize, left.1))
                }
            },
        }
    }

    open spec fn spec_claim(&self, witness: &Self::Witness) -> Self::Claim {
        (self.spec_left().spec_claim(&witness.0), self.spec_right().spec_claim(&witness.1))
    }

    /// The left child's constraints as they are, then the right child's,
    /// re-addressed by the number of the left child's columns.
    open spec fn spec_constraints(&self, claim: &Self::Claim) -> Seq<Expression> {
        self.spec_left().spec_constraints(&claim.0) + readdressed(
            self.spec_right().spec_constraints(&claim.1),
            width(&self.spec_left()),
        )
    }

    /// The left child's cell in the left child's columns, the right child's
    /// in those after them.
    open spec fn spec_cell(&self, witness: &Self::Witness, column: int, row: int) -> Scalar {
        if column < width(&self.spec_left()) {
            self.spec_left().spec_cell(&witness.0, column, row)
        } else {
            self.spec_right().spec_cell(&witness.1, column - width(&self.spec_left()), row)
        }
    }
}

impl<Left: Component, Right: Component> Component for Horizontal<Left, Right> {
    proof fn constraints_fit(&self, claim: &Self::Claim) {
        let left = self.spec_left().spec_constraints(&claim.0);
        let right = self.spec_right().spec_constraints(&claim.1);
        let offset = width(&self.spec_left());
        self.spec_left().constraints_fit(&claim.0);
        self.spec_right().constraints_fit(&claim.1);
        assert forall|index: int| 0 <= index < self.spec_constraints(claim).len() implies (
        #[trigger] self.spec_constraints(claim)[index]).fits(width(self)) by {
            if index < left.len() {
                left[index].lemma_fits_monotonic(offset, width(self));
            } else {
                right[index - left.len()].lemma_shifted_fits(width(&self.spec_right()), offset);
            }
        }
    }

    fn shape(&self) -> (shape: Result<(usize, usize), ShapeError>) {
        let left = match self.left.shape() {
            Ok(left) => left,
            Err(error) => {
                return Err(error);
            },
        };
        let right = match self.right.shape() {
            Ok(right) => right,
            Err(error) => {
                return Err(error);
            },
        };
        if left.1 != right.1 {
            return Err(ShapeError::RowMismatch { left: left.1, right: right.1 });
        }
        if left.0 > usize::MAX - right.0 {
            return Err(ShapeError::TooManyColumns);
        }
        Ok((left.0 + right.0, left.1))
    }

    fn claim(&self, witness: &Self::Witness) -> (claim: Self::Claim) {
        (self.left.claim(&witness.0), self.right.claim(&witness.1))
    }

    fn constraints(&self, claim: &Self::Claim) -> (constraints: Vec<Expression>) {
        let offset = match self.left.shape() {
            Ok((columns, _)) => columns,
            Err(_) => unreached(),
        };
        let mut constraints = self.left.constraints(&claim.0);
        let right = self.right.constraints(&claim.1);
        let ghost left = constraints@;
        proof {
            self.spec_right().constraints_fit(&claim.1);
        }
        let mut index: usize = 0;
        while index < right.len()
            invariant
                index <= right.len(),
                offset == width(&self.spec_left()),
                width(&self.spec_right()) + offset <= usize::MAX,
                forall|i: int|
                    0 <= i < right.len() ==> (#[trigger] right[i]).fits(width(&self.spec_right())),
                constraints@ == left + readdressed(right@.subrange(0, index as int), offset as int),
            decreases right.len() - index,
        {
            proof {
                right[index as int].lemma_fits_monotonic(
                    width(&self.spec_right()),
                    usize::MAX + 1 - offset,
                );
            }
            let shifted = right[index].shift_columns(offset);
            constraints.push(shifted);
            index += 1;
            assert(constraints@ =~= left + readdressed(
                right@.subrange(0, index as int),
                offset as int,
            ));
        }
        assert(right@.subrange(0, index as int) =~= right@);
        constraints
    }

    fn write_trace<W: TraceWriter>(&self, writer: W, witness: &Self::Witness) -> (written: W) {
        let (left_columns, rows) = match self.left.shape() {
            Ok(shape) => shape,
            Err(_) => unreached(),
        };
        let (right_columns, _) = match self.right.shape() {
            Ok(shape) => shape,
            Err(_) => unreached(),
        };
        let ghost before = writer.state();
        let mapped = Mapped::new(writer, left_columns, rows, 0, 0);
        let ghost narrow = mapped.state();
        assert(narrow.blank()) by {
            assert forall|column: int, row: int| #[trigger]
                narrow.inside(column, row) implies !narrow.written(column, row) by {
                assert(before.inside(column, row));
            }
        }
        let mapped = self.left.write_trace(mapped, &witness.0);
        let writer = mapped.into_inner();
        proof {
            before.lemma_narrowed_widened(0, 0, left_columns as int, rows as int);
        }
        let ghost middle = writer.state();
        let mapped = Mapped::new(writer, right_columns, rows, left_columns, 0);
        let ghost second = mapped.state();
        assert(second.blank()) by {
            assert forall|column: int, row: int| #[trigger]
                second.inside(column, row) implies !second.written(column, row) by {
                assert(before.inside(column + left_columns, row));
                assert(!before.written(column + left_columns, row));
            }
        }
        let mapped = self.right.write_trace(mapped, &witness.1);
        let written = mapped.into_inner();
        proof {
            middle.lemma_narrowed_widened(
                left_columns as int,
                0,
                right_columns as int,
                rows as int,
            );
            let expected = before.filled(cells(self, witness));
            assert(written.state().table.cells =~= expected.table.cells);
        }
        written
    }
}

/// Two components with the same number of rows compose to a component with
/// the columns of both and the rows of each. Components with different
/// numbers of rows do not compose.
pub proof fn lemma_shape_composition<Left: Component, Right: Component>(
    composed: &Horizontal<Left, Right>,
)
    requires
        composed.spec_left().spec_shape() is Ok,
        composed.spec_right().spec_shape() is Ok,
    ensures
        height(&composed.spec_left()) == height(&composed.spec_right()) && width(
            &composed.spec_left(),
        ) + width(&composed.spec_right()) <= usize::MAX ==> composed.spec_shape() is Ok && width(
            composed,
        ) == width(&composed.spec_left()) + width(&composed.spec_right()) && height(composed)
            == height(&composed.spec_left()),
        height(&composed.spec_left()) != height(&composed.spec_right()) ==> composed.spec_shape()
            == Err::<(usize, usize), ShapeError>(
            ShapeError::RowMismatch {
                left: height(&composed.spec_left()) as usize,
                right: height(&composed.spec_right()) as usize,
            },
        ),
{
}

/// The constraints of a composition are the left child's, unchanged, and
/// then the right child's, each with every reference to a trace cell moved
/// right by the number of the left child's columns and nothing else changed.
pub proof fn lemma_column_readdressing<Left: Component, Right: Component>(
    composed: &Horizontal<Left, Right>,
    claim: &(Left::Claim, Right::Claim),
)
    requires
        composed.spec_shape() is Ok,
    ensures
        ({
            let all = composed.spec_constraints(claim);
            let left = composed.spec_left().spec_constraints(&claim.0);
            let right = composed.spec_right().spec_constraints(&claim.1);
            let offset = width(&composed.spec_left());
            &&& all.len() == left.len() + right.len()
            &&& forall|index: int| 0 <= index < left.len() ==> #[trigger] all[index] == left[index]
            &&& forall|index: int|
                0 <= index < right.len() ==> {
                    let moved = #[trigger] all[left.len() + index];
                    let plain = right[index];
                    &&& moved == plain.shifted(offset)
                    &&& moved.references().len() == plain.references().len()
                    &&& forall|k: int|
                        0 <= k < plain.references().len() ==> #[trigger] moved.references()[k]
                            == (plain.references()[k].0 + offset, plain.references()[k].1)
                }
        }),
{
    let all = composed.spec_constraints(claim);
    let left = composed.spec_left().spec_constraints(&claim.0);
    let right = composed.spec_right().spec_constraints(&claim.1);
    let offset = width(&composed.spec_left());
    composed.spec_right().constraints_fit(&claim.1);
    assert forall|index: int| 0 <= index < right.len() implies {
        let moved = #[trigger] all[left.len() + index];
        let plain = right[index];
        &&& moved == plain.shifted(offset)
        &&& moved.references().len() == plain.references().len()
        &&& forall|k: int|
            0 <= k < plain.references().len() ==> #[trigger] moved.references()[k] == (
                plain.references()[k].0 + offset,
                plain.references()[k].1,
            )
    } by {
        right[index].lemma_shifted_references(width(&composed.spec_right()), offset);
    }
}

/// A witness satisfies a composition exactly when its two halves satisfy
/// the two children.
pub proof fn lemma_compositional_soundness<Left: Component, Right: Component>(
    composed: &Horizontal<Left, Right>,
    witness: &(Left::Witness, Right::Witness),
)
    requires
        composed.spec_shape() is Ok,
    ensures
        accepts(composed, witness) <==> accepts(&composed.spec_left(), &witness.0) && accepts(
            &composed.spec_right(),
            &witness.1,
        ),
{
    let first = composed.spec_left();
    let second = composed.spec_right();
    let claim = composed.spec_claim(witness);
    let all = composed.spec_constraints(&claim);
    let left = first.spec_constraints(&claim.0);
    let right = second.spec_constraints(&claim.1);
    let offset = width(&first);
    let whole = trace(composed, witness);
    let left_trace = trace(&first, &witness.0);
    let right_trace = trace(&second, &witness.1);
    let rows = height(composed);
    first.constraints_fit(&claim.0);
    second.constraints_fit(&claim.1);
    if rows > 0 {
        assert forall|column: int, at: int|
            0 <= column < offset && 0 <= at < rows
            implies #[trigger] whole.value(column + 0, at) == left_trace.value(column, at) by {
            assert(whole.written(column, at));
            assert(left_trace.written(column, at));
        }
        assert forall|column: int, at: int|
            0 <= column < width(&second) && 0 <= at < rows
            implies #[trigger] whole.value(column + offset, at) == right_trace.value(column, at) by {
            assert(whole.written(column + offset, at));
            assert(right_trace.written(column, at));
        }
        assert forall|index: int, row: int|
            0 <= index < left.len()
            implies #[trigger] all[index].eval(whole, row) == left[index].eval(left_trace, row) by {
            left[index].lemma_shifted_by_zero();
            left[index].lemma_eval_shifted(offset, 0, whole, left_trace, row);
        }
        assert forall|index: int, row: int|
            0 <= index < right.len()
            implies #[trigger] all[left.len() + index].eval(whole, row)
                == right[index].eval(right_trace, row) by {
            right[index].lemma_eval_shifted(width(&second), offset, whole, right_trace, row);
        }
        if accepts(composed, witness) {
            assert forall|index: int, row: int|
                0 <= index < left.len() && 0 <= row < rows implies #[trigger] left[index].eval(
                left_trace,
                row,
            ) == Scalar::spec_zero() by {
                assert(all[index].eval(whole, row) == Scalar::spec_zero());
            }
            assert forall|index: int, row: int|
                0 <= index < right.len() && 0 <= row < rows implies #[trigger] right[index].eval(
                right_trace,
                row,
            ) == Scalar::spec_zero() by {
                assert(all[left.len() + index].eval(whole, row) == Scalar::spec_zero());
            }
        }
        if accepts(&first, &witness.0) && accepts(&second, &witness.1) {
            assert forall|index: int, row: int|
                0 <= index < all.len() && 0 <= row < rows implies #[trigger] all[index].eval(
                whole,
                row,
            ) == Scalar::spec_zero() by {
                if index < left.len() {
                    assert(left[index].eval(left_trace, row) == Scalar::spec_zero());
                } else {
                    let at = index - left.len();
                    assert(all[left.len() + at].eval(whole, row) == right[at].eval(
                        right_trace,
                        row,
                    ));
                    assert(right[at].eval(right_trace, row) == Scalar::spec_zero());
                }
            }
        }
    }
}

/// Composition is associative: `(a, b), c` and `a, (b, c)` have the same
/// shape, the same constraints in the same order, and the same trace, cell
/// for cell, though their claims and witnesses are paired differently.
pub proof fn lemma_associative<A: Component, B: Component, C: Component>(
    leftward: &Horizontal<Horizontal<A, B>, C>,
    rightward: &Horizontal<A, Horizontal<B, C>>,
    claim: &(A::Claim, B::Claim, C::Claim),
    witness: &(A::Witness, B::Witness, C::Witness),
)
    requires
        leftward.spec_left().spec_left() == rightward.spec_left(),
        leftward.spec_left().spec_right() == rightward.spec_right().spec_left(),
        leftward.spec_right() == rightward.spec_right().spec_right(),
        leftward.spec_shape() is Ok,
    ensures
        rightward.spec_shape() == leftward.spec_shape(),
        leftward.spec_constraints(&((claim.0, claim.1), claim.2)) == rightward.spec_constraints(
            &(claim.0, (claim.1, claim.2)),
        ),
        forall|column: int, row: int| #[trigger]
            leftward.spec_cell(&((witness.0, witness.1), witness.2), column, row)
                == rightward.spec_cell(&(witness.0, (witness.1, witness.2)), column, row),
        trace(leftward, &((witness.0, witness.1), witness.2)) == trace(
            rightward,
            &(witness.0, (witness.1, witness.2)),
        ),
{
    let a = rightward.spec_left();
    let b = rightward.spec_right().spec_left();
    let c = leftward.spec_right();
    let first = a.spec_constraints(&claim.0);
    let second = b.spec_constraints(&claim.1);
    let third = c.spec_constraints(&claim.2);
    let one = leftward.spec_constraints(&((claim.0, claim.1), claim.2));
    let other = rightward.spec_constraints(&(claim.0, (claim.1, claim.2)));
    c.constraints_fit(&claim.2);
    assert(one.len() == other.len());
    assert forall|index: int| 0 <= index < one.len() implies one[index] == other[index] by {
        if index >= first.len() + second.len() {
            let at = index - first.len() - second.len();
            third[at].lemma_shifted_twice(width(&c), width(&b), width(&a));
            assert(other[index] == readdressed(
                rightward.spec_right().spec_constraints(&(claim.1, claim.2)),
                width(&a),
            )[index - first.len()]);
        } else if index >= first.len() {
            assert(other[index] == readdressed(
                rightward.spec_right().spec_constraints(&(claim.1, claim.2)),
                width(&a),
            )[index - first.len()]);
        }
    }
    assert(one =~= other);
    let one_trace = trace(leftward, &((witness.0, witness.1), witness.2));
    let other_trace = trace(rightward, &(witness.0, (witness.1, witness.2)));
    assert(one_trace.cells =~= other_trace.cells);
}

} // verus!
