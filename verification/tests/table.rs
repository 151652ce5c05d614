use air_components::field::Scalar;
use air_components::table::TraceTable;
use air_components::writer::{Mapped, TraceWriter};

#[test]
fn a_new_table_holds_zero() {
    let table = TraceTable::new(3, 2);
    assert_eq!(table.columns(), 3);
    assert_eq!(table.rows(), 2);
    for column in 0..3 {
        for row in 0..2 {
            assert!(table.get(column, row).is_zero());
        }
    }
    assert_eq!(table.dimensions(), (3, 2));
}

#[test]
fn a_table_may_have_no_cells() {
    let no_columns = TraceTable::new(0, 5);
    assert_eq!(no_columns.dimensions(), (0, 5));
    let no_rows = TraceTable::new(5, 0);
    assert_eq!(no_rows.dimensions(), (5, 0));
    assert!(no_columns != no_rows);
    assert!(no_columns == TraceTable::new(0, 5));
}

#[test]
fn set_changes_one_cell() {
    let mut table = TraceTable::new(3, 2);
    table.set(2, 1, Scalar::new(9));
    for column in 0..3 {
        for row in 0..2 {
            let expected = if column == 2 && row == 1 { 9 } else { 0 };
            assert_eq!(table.get(column, row).value(), expected);
        }
    }
}

#[test]
fn write_changes_one_cell() {
    let mut table = TraceTable::new(2, 2);
    table.write(0, 1, Scalar::new(4));
    assert_eq!(table.get(0, 1).value(), 4);
    assert_eq!(table.get(1, 0).value(), 0);
    assert_eq!(table.get(0, 0).value(), 0);
    assert_eq!(table.get(1, 1).value(), 0);
}

#[test]
fn tables_are_equal_by_dimensions_and_cells() {
    let mut one = TraceTable::new(2, 2);
    let mut other = TraceTable::new(2, 2);
    assert!(one.equals(&other));
    assert!(one == other);
    one.set(1, 1, Scalar::new(5));
    assert!(!one.equals(&other));
    assert!(one != other);
    other.set(1, 1, Scalar::new(5));
    assert!(one.equals(&other));
    assert!(!TraceTable::new(2, 3).equals(&TraceTable::new(3, 2)));
    assert!(!TraceTable::new(2, 3).equals(&TraceTable::new(2, 4)));
    // A cell written with zero holds what an unwritten cell holds.
    let mut written = TraceTable::new(1, 1);
    written.set(0, 0, Scalar::zero());
    assert!(written.equals(&TraceTable::new(1, 1)));
}

#[test]
fn a_mapped_writer_moves_columns_and_rows() {
    let table = TraceTable::new(5, 4);
    let mut mapped = Mapped::new(table, 2, 2, 3, 1);
    assert_eq!(mapped.dimensions(), (2, 2));
    mapped.write(0, 0, Scalar::new(7));
    mapped.write(1, 1, Scalar::new(8));
    let table = mapped.into_inner();
    for column in 0..5 {
        for row in 0..4 {
            let expected = match (column, row) {
                (3, 1) => 7,
                (4, 2) => 8,
                _ => 0,
            };
            assert_eq!(table.get(column, row).value(), expected);
        }
    }
}

#[test]
fn a_mapped_writer_without_offsets_writes_in_place() {
    let mut mapped = Mapped::new(TraceTable::new(2, 2), 2, 2, 0, 0);
    mapped.write(1, 0, Scalar::new(3));
    let table = mapped.into_inner();
    assert_eq!(table.get(1, 0).value(), 3);
    assert_eq!(table.get(0, 1).value(), 0);
}

#[test]
fn two_mapped_writers_add_their_offsets() {
    let outer = Mapped::new(TraceTable::new(6, 6), 4, 4, 1, 2);
    let mut inner = Mapped::new(outer, 2, 2, 2, 1);
    assert_eq!(inner.dimensions(), (2, 2));
    inner.write(1, 1, Scalar::new(9));
    inner.write(0, 0, Scalar::new(6));
    let nested = inner.into_inner().into_inner();

    let mut single = Mapped::new(TraceTable::new(6, 6), 2, 2, 3, 3);
    single.write(1, 1, Scalar::new(9));
    single.write(0, 0, Scalar::new(6));
    let direct = single.into_inner();

    assert!(nested == direct);
    assert_eq!(nested.get(4, 4).value(), 9);
    assert_eq!(nested.get(3, 3).value(), 6);
    assert_eq!(nested.get(1, 1).value(), 0);
}
