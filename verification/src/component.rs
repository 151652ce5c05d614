//! The contract that every building block of a constraint system meets, and
//! what is derived from it: materializing the trace and checking a witness.

use crate::expression::Expression;
use crate::field::Scalar;
use crate::table::{TableView, TraceTable};
use crate::writer::TraceWriter;
use vstd::pervasive::unreached;
use vstd::prelude::*;

verus! {

/// Why a tree of components has no shape.
#[derive(Clone, Copy, Debug, PartialEq, Eq, Structural)]
pub enum ShapeError {
    /// Two components that share their rows differ in their number of rows.
    RowMismatch { left: usize, right: usize },
    /// The columns of two components side by side are more than can be
    /// counted.
    TooManyColumns,
}

/// A constraint that does not vanish: its index in the list of constraints,
/// and the row at which it was evaluated.
#[derive(Clone, Copy, Debug, PartialEq, Eq, Structural)]
pub struct ConstraintViolation {
    pub constraint: usize,
    pub row: usize,
}

/// Every constraint vanishes at every row of the table.
pub open spec fn satisfied(constraints: Seq<Expression>, table: TableView) -> bool {
    forall|index: int, row: int|
        0 <= index < constraints.len() && 0 <= row < table.rows
            ==> #[trigger] constraints[index].eval(table, row) == Scalar::spec_zero()
}

/// Constraint `index` does not vanish at `row`, and every constraint before
/// it vanishes at every row, as does constraint `index` at every row before
/// `row`.
pub open spec fn first_violation(
    constraints: Seq<Expression>,
    table: TableView,
    index: int,
    row: int,
) -> bool {
    &&& 0 <= index < constraints.len()
    &&& 0 <= row < table.rows
    &&& constraints[index].eval(table, row) != Scalar::spec_zero()
    &&& forall|earlier: int, at: int|
        0 <= earlier < index && 0 <= at < table.rows ==> #[trigger] constraints[earlier].eval(
            table,
            at,
        ) == Scalar::spec_zero()
    &&& forall|at: int|
        0 <= at < row ==> #[trigger] constraints[index].eval(table, at) == Scalar::spec_zero()
}

/// What checking the constraints against the table is to report.
pub open spec fn verdict(
    constraints: Seq<Expression>,
    table: TableView,
    result: Result<(), ConstraintViolation>,
) -> bool {
    match result {
        Ok(_) => satisfied(constraints, table),
        Err(violation) => first_violation(
            constraints,
            table,
            violation.constraint as int,
            violation.row as int,
        ),
    }
}

/// The verdict is settled by the constraints and the table: there is one
/// result that meets it, which is `Ok` exactly when every constraint
/// vanishes at every row.
pub proof fn lemma_verdict_unique(
    constraints: Seq<Expression>,
    table: TableView,
    first: Result<(), ConstraintViolation>,
    second: Result<(), ConstraintViolation>,
)
    requires
        verdict(constraints, table, first),
        verdict(constraints, table, second),
    ensures
        first == second,
        first is Ok <==> satisfied(constraints, table),
{
    match (first, second) {
        (Ok(one), Ok(other)) => {
            assert(one == () && other == ());
        },
        (Err(violation), Ok(_)) => {
            assert(constraints[violation.constraint as int].eval(table, violation.row as int)
                != Scalar::spec_zero());
        },
        (Ok(_), Err(violation)) => {
            assert(constraints[violation.constraint as int].eval(table, violation.row as int)
                != Scalar::spec_zero());
        },
        (Err(one), Err(other)) => {
            let one_value = constraints[one.constraint as int].eval(table, one.row as int);
            let other_value = constraints[other.constraint as int].eval(table, other.row as int);
            assert(one_value != Scalar::spec_zero());
            assert(other_value != Scalar::spec_zero());
            assert(one.constraint == other.constraint);
            assert(one.row == other.row);
            assert(one == other);
        },
    }
}

/// Evaluates each constraint, in order, at each row of the table, in order,
/// and reports the first that does not vanish.
pub fn check_constraints(constraints: &Vec<Expression>, table: &TraceTable) -> (result: Result<
    (),
    ConstraintViolation,
>)
    requires
        forall|index: int|
            0 <= index < constraints.len() ==> (#[trigger] constraints[index]).fits(
                table@.columns,
            ),
    ensures
        verdict(constraints@, table@, result),
{
    let rows = table.rows();
    let mut index: usize = 0;
    while index < constraints.len()
        invariant
            index <= constraints.len(),
            rows == table@.rows,
            forall|i: int|
                0 <= i < constraints.len() ==> (#[trigger] constraints[i]).fits(table@.columns),
            forall|earlier: int, at: int|
                0 <= earlier < index && 0 <= at < table@.rows
                    ==> #[trigger] constraints@[earlier].eval(table@, at) == Scalar::spec_zero(),
        decreases constraints.len() - index,
    {
        let mut row: usize = 0;
        while row < rows
            invariant
                row <= rows,
                index < constraints.len(),
                rows == table@.rows,
                constraints[index as int].fits(table@.columns),
                forall|earlier: int, at: int|
                    0 <= earlier < index && 0 <= at < table@.rows
                        ==> #[trigger] constraints@[earlier].eval(table@, at)
                        == Scalar::spec_zero(),
                forall|at: int|
                    0 <= at < row ==> #[trigger] constraints@[index as int].eval(table@, at)
                        == Scalar::spec_zero(),
            decreases rows - row,
        {
            let value = constraints[index].evaluate(table, row);
            if !value.is_zero() {
                return Err(ConstraintViolation { constraint: index, row });
            }
            row += 1;
        }
        index += 1;
    }
    Ok(())
}

/// What a building block of a constraint system is, as mathematics: its
/// shape, the claim that belongs to a witness, the constraints for a claim,
/// and the trace for a witness.
pub trait Air: Sized {
    /// The public statement.
    type Claim;

    /// The private data from which the trace is made.
    type Witness;

    /// The number of columns and of rows of the trace, or why there is none.
    spec fn spec_shape(&self) -> Result<(usize, usize), ShapeError>;

    /// The claim that belongs to a witness.
    spec fn spec_claim(&self, witness: &Self::Witness) -> Self::Claim;

    /// The constraints for a claim, in their order.
    spec fn spec_constraints(&self, claim: &Self::Claim) -> Seq<Expression>;

    /// The value of the trace cell at `(column, row)` for a witness.
    spec fn spec_cell(&self, witness: &Self::Witness, column: int, row: int) -> Scalar;
}

/// The number of columns of a component's trace.
pub open spec fn width<C: Air>(component: &C) -> int {
    component.spec_shape()->Ok_0.0 as int
}

/// The number of rows of a component's trace.
pub open spec fn height<C: Air>(component: &C) -> int {
    component.spec_shape()->Ok_0.1 as int
}

/// The cells of a component's trace for a witness, by column and row.
pub open spec fn cells<C: Air>(component: &C, witness: &C::Witness) -> spec_fn(int, int) -> Scalar {
    |column: int, row: int| component.spec_cell(witness, column, row)
}

/// The trace of a component for a witness: every cell written.
pub open spec fn trace<C: Air>(component: &C, witness: &C::Witness) -> TableView {
    TableView {
        columns: width(component),
        rows: height(component),
        cells: Map::new(
            |at: (int, int)| 0 <= at.0 < width(component) && 0 <= at.1 < height(component),
            |at: (int, int)| component.spec_cell(witness, at.0, at.1),
        ),
    }
}

/// Whether checking the witness succeeds.
pub open spec fn accepts<C: Air>(component: &C, witness: &C::Witness) -> bool {
    satisfied(component.spec_constraints(&component.spec_claim(witness)), trace(component, witness))
}

/// A building block of a constraint system: a leaf, or a composition of
/// components.
///
/// A component has a fixed shape, derives a public claim from a private
/// witness, states the constraints that a valid trace meets, and fills a
/// trace from a witness.
pub trait Component: Air {
    /// The constraints refer to no column beyond the component's own.
    proof fn constraints_fit(&self, claim: &Self::Claim)
        requires
            self.spec_shape() is Ok,
        ensures
            forall|index: int|
                0 <= index < self.spec_constraints(claim).len() ==> (
                #[trigger] self.spec_constraints(claim)[index]).fits(width(self)),
    ;

    /// The number of columns and of rows of the trace. Fails where the
    /// components of the tree do not go together.
    fn shape(&self) -> (shape: Result<(usize, usize), ShapeError>)
        ensures
            shape == self.spec_shape(),
    ;

    /// The public claim that belongs to a witness.
    fn claim(&self, witness: &Self::Witness) -> (claim: Self::Claim)
        ensures
            claim == self.spec_claim(witness),
    ;

    /// The constraints for a claim, in their order.
    fn constraints(&self, claim: &Self::Claim) -> (constraints: Vec<Expression>)
        requires
            self.spec_shape() is Ok,
        ensures
            constraints@ == self.spec_constraints(claim),
    ;

    /// Writes each cell of the component's trace once, and nothing else.
    fn write_trace<W: TraceWriter>(&self, writer: W, witness: &Self::Witness) -> (written: W)
        requires
            self.spec_shape() is Ok,
            writer.state().wf(),
            writer.state().columns() == width(self),
            writer.state().rows() == height(self),
            writer.state().blank(),
        ensures
            written.state() == writer.state().filled(cells(self, witness)),
            written.state().wf(),
    ;

    /// The trace for a witness.
    fn trace_table(&self, witness: &Self::Witness) -> (table: TraceTable)
        requires
            self.spec_shape() is Ok,
        ensures
            table@ == trace(self, witness),
    {
        match self.shape() {
            Ok((columns, rows)) => {
                let blank = TraceTable::new(columns, rows);
                let table = self.write_trace(blank, witness);
                assert(table@.cells =~= trace(self, witness).cells);
                table
            },
            Err(_) => unreached(),
        }
    }

    /// Checks the witness: derives the claim, makes the trace, and evaluates
    /// each constraint for the claim at each row of the trace. Reports the
    /// first constraint that does not vanish, by the order of the
    /// constraints and then of the rows.
    fn check(&self, witness: &Self::Witness) -> (result: Result<(), ConstraintViolation>)
        requires
            self.spec_shape() is Ok,
        ensures
            verdict(
                self.spec_constraints(&self.spec_claim(witness)),
                trace(self, witness),
                result,
            ),
    {
        let claim = self.claim(witness);
        let constraints = self.constraints(&claim);
        let table = self.trace_table(witness);
        proof {
            self.constraints_fit(&claim);
        }
        check_constraints(&constraints, &table)
    }
}

/// Asking a component twice gives the same answer: the claim, the
/// constraints, the trace and the outcome of checking depend on nothing but
/// the component and what it is asked with.
pub proof fn lemma_same_question_same_answer<C: Component>(
    component: &C,
    witness: &C::Witness,
    claim: &C::Claim,
    claims: (C::Claim, C::Claim),
    constraints: (Vec<Expression>, Vec<Expression>),
    tables: (TraceTable, TraceTable),
    outcomes: (Result<(), ConstraintViolation>, Result<(), ConstraintViolation>),
)
    requires
        call_ensures(C::claim, (component, witness), claims.0),
        call_ensures(C::claim, (component, witness), claims.1),
        call_ensures(C::constraints, (component, claim), constraints.0),
        call_ensures(C::constraints, (component, claim), constraints.1),
        call_ensures(C::trace_table, (component, witness), tables.0),
        call_ensures(C::trace_table, (component, witness), tables.1),
        call_ensures(C::check, (component, witness), outcomes.0),
        call_ensures(C::check, (component, witness), outcomes.1),
    ensures
        claims.0 == claims.1,
        constraints.0@ == constraints.1@,
        tables.0@ == tables.1@,
        outcomes.0 == outcomes.1,
{
    lemma_verdict_unique(
        component.spec_constraints(&component.spec_claim(witness)),
        trace(component, witness),
        outcomes.0,
        outcomes.1,
    );
}

} // verus!
