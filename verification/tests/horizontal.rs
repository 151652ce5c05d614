use air_components::component::{check_constraints, Component, ConstraintViolation, ShapeError};
use air_components::expression::Expression;
use air_components::field::Scalar;
use air_components::horizontal::Horizontal;
use air_components::seeded::{relation_at, Seeded};
use air_components::table::TraceTable;

/// A small deterministic generator, so that every run sees the same cases.
fn next(state: &mut u64) -> u64 {
    *state ^= *state << 13;
    *state ^= *state >> 7;
    *state ^= *state << 17;
    *state
}

/// A leaf with up to nine columns, with its claim and its witness.
fn component(state: &mut u64, rows: usize) -> (Seeded, Scalar, (Scalar, Scalar)) {
    let columns = (next(state) % 10) as usize;
    let seed = Scalar::new(next(state));
    let claim = Scalar::new(next(state));
    let witness = Scalar::new(next(state));
    (Seeded::new(rows, columns, &seed), claim, (claim, witness))
}

#[test]
fn test_check() {
    let mut state: u64 = 0x9E37_79B9_7F4A_7C15;
    for _ in 0..256 {
        // Generate two components with the same number of rows
        let log_rows = next(&mut state) % 10;
        let rows = 1_usize << log_rows;
        let a = component(&mut state, rows);
        let b = component(&mut state, rows);
        let component = Horizontal::new(a.0, b.0);
        let witness = (a.2, b.2);
        assert!(component.shape().is_ok());
        assert_eq!(component.check(&witness), Ok(()));
    }
}

#[test]
fn test_associative() {
    let mut state: u64 = 0x0123_4567_89AB_CDEF;
    for _ in 0..256 {
        // Generate three components with the same number of rows
        let log_rows = next(&mut state) % 10;
        let rows = 1_usize << log_rows;
        let a = component(&mut state, rows);
        let b = component(&mut state, rows);
        let c = component(&mut state, rows);
        let left = Horizontal::new(Horizontal::new(a.0.clone(), b.0.clone()), c.0.clone());
        let left_claim = ((a.1.clone(), b.1.clone()), c.1.clone());
        let left_witness = ((a.2.clone(), b.2.clone()), c.2.clone());
        let right = Horizontal::new(a.0, Horizontal::new(b.0, c.0));
        let right_claim = (a.1, (b.1, c.1));
        let right_witness = (a.2, (b.2, c.2));
        assert!(left.shape().is_ok());
        assert!(right.shape().is_ok());
        let left_constraints = left.constraints(&left_claim);
        let right_constraints = right.constraints(&right_claim);
        assert_eq!(left_constraints.len(), right_constraints.len());
        for (result, expected) in left_constraints.iter().zip(right_constraints.iter()) {
            assert!(result.equals(expected));
        }
        assert!(left.trace_table(&left_witness) == right.trace_table(&right_witness));
    }
}

fn leaf_x() -> Seeded {
    Seeded::new(4, 2, &Scalar::new(3))
}

fn leaf_y() -> Seeded {
    Seeded::new(4, 3, &Scalar::new(11))
}

fn witness_x() -> (Scalar, Scalar) {
    (Scalar::new(2), Scalar::new(5))
}

fn witness_y() -> (Scalar, Scalar) {
    (Scalar::new(7), Scalar::new(13))
}

#[test]
fn shape_adds_columns_and_keeps_rows() {
    let composed = Horizontal::new(leaf_x(), leaf_y());
    assert_eq!(composed.shape(), Ok((5, 4)));
    let empty = Horizontal::new(Seeded::new(8, 0, &Scalar::new(1)), Seeded::new(8, 0, &Scalar::new(2)));
    assert_eq!(empty.shape(), Ok((0, 8)));
}

#[test]
fn shape_of_nested_compositions() {
    let nested = Horizontal::new(Horizontal::new(leaf_x(), leaf_y()), leaf_x());
    assert_eq!(nested.shape(), Ok((7, 4)));
}

#[test]
fn unequal_rows_fail_at_shape() {
    let four = Seeded::new(4, 2, &Scalar::new(3));
    let five = Seeded::new(5, 3, &Scalar::new(3));
    let composed = Horizontal::new(four, five);
    assert_eq!(composed.shape(), Err(ShapeError::RowMismatch { left: 4, right: 5 }));
    // Asking again gives the same answer.
    assert_eq!(composed.shape(), Err(ShapeError::RowMismatch { left: 4, right: 5 }));
}

#[test]
fn a_child_without_shape_gives_none_to_the_composition() {
    let broken = Horizontal::new(Seeded::new(4, 1, &Scalar::new(1)), Seeded::new(5, 1, &Scalar::new(1)));
    let left_broken = Horizontal::new(broken.clone(), Seeded::new(9, 1, &Scalar::new(1)));
    assert_eq!(left_broken.shape(), Err(ShapeError::RowMismatch { left: 4, right: 5 }));
    let right_broken = Horizontal::new(Seeded::new(9, 1, &Scalar::new(1)), broken);
    assert_eq!(right_broken.shape(), Err(ShapeError::RowMismatch { left: 4, right: 5 }));
}

#[test]
fn too_many_columns_fail_at_shape() {
    let wide = Seeded::new(4, usize::MAX, &Scalar::new(1));
    let one = Seeded::new(4, 1, &Scalar::new(1));
    assert_eq!(Horizontal::new(wide, one).shape(), Err(ShapeError::TooManyColumns));
    let none = Seeded::new(4, 0, &Scalar::new(1));
    assert_eq!(Horizontal::new(wide, none).shape(), Ok((usize::MAX, 4)));
}

#[test]
fn rows_are_compared_before_columns_are_added() {
    let wide = Seeded::new(4, usize::MAX, &Scalar::new(1));
    let other = Seeded::new(6, usize::MAX, &Scalar::new(1));
    assert_eq!(
        Horizontal::new(wide, other).shape(),
        Err(ShapeError::RowMismatch { left: 4, right: 6 })
    );
}

#[test]
fn children_are_kept_as_given() {
    let composed = Horizontal::new(leaf_x(), leaf_y());
    assert_eq!(*composed.left(), leaf_x());
    assert_eq!(*composed.right(), leaf_y());
}

#[test]
fn claim_is_the_pair_of_the_childrens_claims() {
    let composed = Horizontal::new(leaf_x(), leaf_y());
    let claim = composed.claim(&(witness_x(), witness_y()));
    assert_eq!(claim, (Scalar::new(2), Scalar::new(7)));
    assert_eq!(claim.0, leaf_x().claim(&witness_x()));
    assert_eq!(claim.1, leaf_y().claim(&witness_y()));
}

#[test]
fn trace_holds_the_childrens_traces_side_by_side() {
    let composed = Horizontal::new(leaf_x(), leaf_y());
    assert_eq!(composed.shape(), Ok((5, 4)));
    let table = composed.trace_table(&(witness_x(), witness_y()));
    let left = leaf_x().trace_table(&witness_x());
    let right = leaf_y().trace_table(&witness_y());
    assert_eq!(table.columns(), 5);
    assert_eq!(table.rows(), 4);
    for row in 0..4 {
        for column in 0..2 {
            assert_eq!(table.get(column, row), left.get(column, row));
        }
        for column in 2..5 {
            assert_eq!(table.get(column, row), right.get(column - 2, row));
        }
    }
}

#[test]
fn right_constraints_are_moved_by_the_left_columns() {
    let composed = Horizontal::new(leaf_x(), leaf_y());
    let claim = (Scalar::new(2), Scalar::new(7));
    let all = composed.constraints(&claim);
    let left = leaf_x().constraints(&claim.0);
    let right = leaf_y().constraints(&claim.1);
    assert_eq!(left.len(), 1);
    assert_eq!(right.len(), 2);
    assert_eq!(all.len(), 3);
    // The left child's constraints stand first, as they are.
    assert!(all[0].equals(&left[0]));
    // The right child's follow, each reference two columns further on.
    assert!(all[1].equals(&right[0].shift_columns(2)));
    assert!(all[2].equals(&right[1].shift_columns(2)));
    assert!(!all[1].equals(&right[0]));
    // Written out: the relation of column 1 to column 0 becomes that of 3 to 2.
    let seed = Scalar::new(11);
    let moved = Expression::Add(
        Box::new(Expression::Trace(3, 0)),
        Box::new(Expression::Neg(Box::new(Expression::Add(
            Box::new(Expression::Mul(
                Box::new(Expression::Mul(
                    Box::new(Expression::Trace(2, 0)),
                    Box::new(Expression::Trace(2, 0)),
                )),
                Box::new(Expression::Constant(claim.1)),
            )),
            Box::new(Expression::Constant(seed)),
        )))),
    );
    assert!(all[1].equals(&moved));
    assert!(right[0].equals(&relation_at(1, &claim.1, &seed)));
    assert!(all[0].within(2));
    assert!(all[2].within(5));
    assert!(!all[2].within(4));
}

#[test]
fn composition_checks_when_both_children_check() {
    let composed = Horizontal::new(leaf_x(), leaf_y());
    assert_eq!(leaf_x().check(&witness_x()), Ok(()));
    assert_eq!(leaf_y().check(&witness_y()), Ok(()));
    assert_eq!(composed.check(&(witness_x(), witness_y())), Ok(()));
}

/// Copies `table`, with `value` in place of the cell at `(column, row)`.
fn with_cell(table: &TraceTable, column: usize, row: usize, value: Scalar) -> TraceTable {
    let mut copy = TraceTable::new(table.columns(), table.rows());
    for c in 0..table.columns() {
        for r in 0..table.rows() {
            let cell = if c == column && r == row { value } else { table.get(c, r) };
            copy.set(c, r, cell);
        }
    }
    copy
}

#[test]
fn a_spoiled_right_half_fails_the_composition_and_the_right_child() {
    let composed = Horizontal::new(leaf_x(), leaf_y());
    let claim = composed.claim(&(witness_x(), witness_y()));
    let constraints = composed.constraints(&claim);
    let table = composed.trace_table(&(witness_x(), witness_y()));
    assert_eq!(check_constraints(&constraints, &table), Ok(()));

    // Column 4 of the composition is column 2 of the right child. Its
    // relation to the column before is stated at the row before.
    let spoiled = with_cell(&table, 4, 1, Scalar::new(1));
    assert_eq!(
        check_constraints(&constraints, &spoiled),
        Err(ConstraintViolation { constraint: 2, row: 2 })
    );

    let right_table = with_cell(&leaf_y().trace_table(&witness_y()), 2, 1, Scalar::new(1));
    assert_eq!(
        check_constraints(&leaf_y().constraints(&claim.1), &right_table),
        Err(ConstraintViolation { constraint: 1, row: 2 })
    );
    let left_table = leaf_x().trace_table(&witness_x());
    assert_eq!(check_constraints(&leaf_x().constraints(&claim.0), &left_table), Ok(()));
}

#[test]
fn a_spoiled_left_half_fails_the_composition_and_the_left_child() {
    let composed = Horizontal::new(leaf_x(), leaf_y());
    let claim = composed.claim(&(witness_x(), witness_y()));
    let constraints = composed.constraints(&claim);
    let table = composed.trace_table(&(witness_x(), witness_y()));
    let spoiled = with_cell(&table, 0, 3, Scalar::new(1));
    assert_eq!(
        check_constraints(&constraints, &spoiled),
        Err(ConstraintViolation { constraint: 0, row: 3 })
    );
    let left_table = with_cell(&leaf_x().trace_table(&witness_x()), 0, 3, Scalar::new(1));
    assert_eq!(
        check_constraints(&leaf_x().constraints(&claim.0), &left_table),
        Err(ConstraintViolation { constraint: 0, row: 3 })
    );
}

#[test]
fn regrouping_keeps_shape_constraints_and_trace() {
    let a = leaf_x();
    let b = leaf_y();
    let c = Seeded::new(4, 4, &Scalar::new(17));
    let wc = (Scalar::new(19), Scalar::new(23));
    let left = Horizontal::new(Horizontal::new(a, b), c);
    let right = Horizontal::new(a, Horizontal::new(b, c));
    assert_eq!(left.shape(), Ok((9, 4)));
    assert_eq!(right.shape(), Ok((9, 4)));
    let left_constraints = left.constraints(&((witness_x().0, witness_y().0), wc.0));
    let right_constraints = right.constraints(&(witness_x().0, (witness_y().0, wc.0)));
    assert_eq!(left_constraints.len(), 6);
    assert_eq!(right_constraints.len(), 6);
    for index in 0..6 {
        assert!(left_constraints[index].equals(&right_constraints[index]));
    }
    // The last constraint relates columns 8 and 7 of the whole.
    assert!(left_constraints[5].equals(&relation_at(3, &wc.0, &Scalar::new(17)).shift_columns(5)));
    let left_table = left.trace_table(&((witness_x(), witness_y()), wc));
    let right_table = right.trace_table(&(witness_x(), (witness_y(), wc)));
    assert!(left_table == right_table);
    assert!(left_table.equals(&right_table));
    assert_eq!(left.check(&((witness_x(), witness_y()), wc)), Ok(()));
    assert_eq!(right.check(&(witness_x(), (witness_y(), wc))), Ok(()));
}

#[test]
fn asking_twice_gives_the_same() {
    let composed = Horizontal::new(leaf_x(), leaf_y());
    let witness = (witness_x(), witness_y());
    let claim = composed.claim(&witness);
    assert_eq!(claim, composed.claim(&witness));
    let first = composed.constraints(&claim);
    let second = composed.constraints(&claim);
    assert_eq!(first, second);
    assert!(composed.trace_table(&witness) == composed.trace_table(&witness));
    assert_eq!(composed.check(&witness), composed.check(&witness));
}

#[test]
fn a_composition_of_empty_leaves_checks() {
    let composed = Horizontal::new(Seeded::new(1, 0, &Scalar::new(1)), Seeded::new(1, 0, &Scalar::new(2)));
    let witness = ((Scalar::new(3), Scalar::new(4)), (Scalar::new(5), Scalar::new(6)));
    assert_eq!(composed.shape(), Ok((0, 1)));
    assert_eq!(composed.constraints(&composed.claim(&witness)).len(), 0);
    assert_eq!(composed.check(&witness), Ok(()));
    let table = composed.trace_table(&witness);
    assert_eq!((table.columns(), table.rows()), (0, 1));
}
