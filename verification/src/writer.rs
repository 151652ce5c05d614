//! Trace writers: sinks for `(column, row, value)` assignments, and the
//! adapter that re-addresses a writer's coordinates.

use crate::field::Scalar;
use crate::table::{TableView, TraceTable};
use vstd::prelude::*;

verus! {

/// A rectangle of a table: where its first cell lies, and its size.
pub struct Window {
    pub column: int,
    pub row: int,
    pub columns: int,
    pub rows: int,
}

impl Window {
    /// The whole of a table with the given dimensions.
    pub open spec fn whole(columns: int, rows: int) -> Window {
        Window { column: 0, row: 0, columns, rows }
    }

    /// Whether this rectangle lies within `outer`.
    pub open spec fn within(self, outer: Window) -> bool {
        &&& 0 <= self.columns
        &&& 0 <= self.rows
        &&& outer.column <= self.column
        &&& outer.row <= self.row
        &&& self.column + self.columns <= outer.column + outer.columns
        &&& self.row + self.rows <= outer.row + outer.rows
    }

    /// The rectangle of the given size that starts `column_offset` columns
    /// and `row_offset` rows into this one.
    pub open spec fn narrowed(
        self,
        column_offset: int,
        row_offset: int,
        columns: int,
        rows: int,
    ) -> Window {
        Window {
            column: self.column + column_offset,
            row: self.row + row_offset,
            columns,
            rows,
        }
    }
}

/// What a writer stands for: the table that its writes land in, the
/// rectangle of it that the writer addresses, and the rectangles of the
/// writers that it was narrowed from, outermost first.
pub struct WriterView {
    pub table: TableView,
    pub enclosing: Seq<Window>,
    pub window: Window,
}

impl WriterView {
    pub open spec fn columns(self) -> int {
        self.window.columns
    }

    pub open spec fn rows(self) -> int {
        self.window.rows
    }

    /// Every rectangle lies within the table and within the one before it.
    pub open spec fn wf(self) -> bool {
        let whole = Window::whole(self.table.columns, self.table.rows);
        &&& self.table.wf()
        &&& self.window.within(whole)
        &&& self.enclosing.len() > 0 ==> self.window.within(self.enclosing.last())
        &&& forall|i: int|
            0 <= i < self.enclosing.len() ==> (#[trigger] self.enclosing[i]).within(whole)
        &&& forall|i: int|
            0 < i < self.enclosing.len() ==> (#[trigger] self.enclosing[i]).within(
                self.enclosing[i - 1],
            )
    }

    /// Whether `(column, row)`, in the writer's own coordinates, is a cell
    /// that the writer addresses.
    pub open spec fn inside(self, column: int, row: int) -> bool {
        0 <= column < self.columns() && 0 <= row < self.rows()
    }

    /// Whether the cell at `(column, row)`, in the writer's own coordinates,
    /// has been written.
    pub open spec fn written(self, column: int, row: int) -> bool {
        self.table.written(self.window.column + column, self.window.row + row)
    }

    /// No cell that the writer addresses has been written.
    pub open spec fn blank(self) -> bool {
        forall|column: int, row: int| #[trigger]
            self.inside(column, row) ==> !self.written(column, row)
    }

    /// The writer after `value` is written at `(column, row)`, in its own
    /// coordinates.
    pub open spec fn put(self, column: int, row: int, value: Scalar) -> WriterView {
        WriterView {
            table: self.table.put(self.window.column + column, self.window.row + row, value),
            ..self
        }
    }

    /// The writer after every cell `(column, row)` that it addresses has
    /// been written with `cell(column, row)`. All other cells of the table
    /// are as before.
    pub open spec fn filled(self, cell: spec_fn(int, int) -> Scalar) -> WriterView {
        let window = self.window;
        WriterView {
            table: TableView {
                cells: Map::new(
                    |at: (int, int)|
                        self.table.cells.dom().contains(at) || self.inside(
                            at.0 - window.column,
                            at.1 - window.row,
                        ),
                    |at: (int, int)|
                        if self.inside(at.0 - window.column, at.1 - window.row) {
                            cell(at.0 - window.column, at.1 - window.row)
                        } else {
                            self.table.cells[at]
                        },
                ),
                ..self.table
            },
            ..self
        }
    }

    /// The writer that addresses the rectangle of the given size that starts
    /// `column_offset` columns and `row_offset` rows into this writer's.
    pub open spec fn narrowed(
        self,
        column_offset: int,
        row_offset: int,
        columns: int,
        rows: int,
    ) -> WriterView {
        WriterView {
            enclosing: self.enclosing.push(self.window),
            window: self.window.narrowed(column_offset, row_offset, columns, rows),
            ..self
        }
    }

    /// The writer that a narrowed writer was narrowed from, on the table as
    /// it is now.
    pub open spec fn widened(self) -> WriterView {
        WriterView {
            enclosing: self.enclosing.drop_last(),
            window: self.enclosing.last(),
            ..self
        }
    }

    /// Narrowing and then widening gives the writer back.
    pub proof fn lemma_narrowed_widened(
        self,
        column_offset: int,
        row_offset: int,
        columns: int,
        rows: int,
    )
        ensures
            self.narrowed(column_offset, row_offset, columns, rows).widened() == self,
    {
        let narrowed = self.narrowed(column_offset, row_offset, columns, rows);
        assert(narrowed.enclosing.drop_last() =~= self.enclosing);
    }

    /// A well-formed writer that was narrowed from another leaves that other
    /// writer well-formed.
    pub proof fn lemma_widened_wf(self)
        requires
            self.wf(),
            self.enclosing.len() > 0,
        ensures
            self.widened().wf(),
    {
        let wide = self.widened();
        let last = self.enclosing.len() - 1;
        assert(wide.window == self.enclosing[last]);
        let whole = Window::whole(self.table.columns, self.table.rows);
        assert forall|i: int|
            0 <= i < wide.enclosing.len()
            implies (#[trigger] wide.enclosing[i]).within(whole) by {
            assert(wide.enclosing[i] == self.enclosing[i]);
        }
        assert forall|i: int|
            0 < i < wide.enclosing.len()
            implies (#[trigger] wide.enclosing[i]).within(wide.enclosing[i - 1]) by {
            assert(wide.enclosing[i] == self.enclosing[i]);
            assert(wide.enclosing[i - 1] == self.enclosing[i - 1]);
        }
        if wide.enclosing.len() > 0 {
            assert(wide.enclosing.last() == self.enclosing[last - 1]);
            assert(self.enclosing[last].within(self.enclosing[last - 1]));
        }
    }

    /// Narrowing a well-formed writer to a rectangle within its own gives a
    /// well-formed writer.
    pub proof fn lemma_narrowed_wf(
        self,
        column_offset: int,
        row_offset: int,
        columns: int,
        rows: int,
    )
        requires
            self.wf(),
            0 <= column_offset,
            0 <= row_offset,
            0 <= columns,
            0 <= rows,
            column_offset + columns <= self.columns(),
            row_offset + rows <= self.rows(),
        ensures
            self.narrowed(column_offset, row_offset, columns, rows).wf(),
    {
        let narrow = self.narrowed(column_offset, row_offset, columns, rows);
        let whole = Window::whole(self.table.columns, self.table.rows);
        assert(narrow.enclosing.last() == self.window);
        assert forall|i: int| 0 <= i < narrow.enclosing.len() implies (
        #[trigger] narrow.enclosing[i]).within(whole) by {
            if i < self.enclosing.len() {
                assert(narrow.enclosing[i] == self.enclosing[i]);
            }
        }
        assert forall|i: int| 0 < i < narrow.enclosing.len() implies (
        #[trigger] narrow.enclosing[i]).within(narrow.enclosing[i - 1]) by {
            if i < self.enclosing.len() {
                assert(narrow.enclosing[i] == self.enclosing[i]);
                assert(narrow.enclosing[i - 1] == self.enclosing[i - 1]);
            } else {
                assert(narrow.enclosing[i - 1] == self.enclosing.last());
            }
        }
    }

    /// A writer narrowed twice addresses the same cells as the writer
    /// narrowed once by the sum of the offsets: each write lands in the same
    /// cell of the table.
    pub proof fn lemma_narrowed_twice(
        self,
        first: Window,
        second: Window,
        column: int,
        row: int,
        value: Scalar,
    )
        ensures
            self.narrowed(first.column, first.row, first.columns, first.rows).narrowed(
                second.column,
                second.row,
                second.columns,
                second.rows,
            ).window == self.narrowed(
                first.column + second.column,
                first.row + second.row,
                second.columns,
                second.rows,
            ).window,
            self.narrowed(first.column, first.row, first.columns, first.rows).narrowed(
                second.column,
                second.row,
                second.columns,
                second.rows,
            ).put(column, row, value).table == self.narrowed(
                first.column + second.column,
                first.row + second.row,
                second.columns,
                second.rows,
            ).put(column, row, value).table,
    {
    }
}

/// A sink for the cells of a trace. Each cell that a writer addresses is to
/// be written once.
pub trait TraceWriter: Sized {
    /// The table behind the writer and the part of it that the writer
    /// addresses.
    spec fn state(&self) -> WriterView;

    /// The number of columns and of rows that the writer addresses.
    fn dimensions(&self) -> (size: (usize, usize))
        requires
            self.state().wf(),
        ensures
            size.0 == self.state().columns(),
            size.1 == self.state().rows(),
    ;

    /// Writes `value` at `(column, row)`.
    fn write(&mut self, column: usize, row: usize, value: Scalar)
        requires
            old(self).state().wf(),
            old(self).state().inside(column as int, row as int),
            !old(self).state().written(column as int, row as int),
        ensures
            final(self).state() == old(self).state().put(column as int, row as int, value),
            final(self).state().wf(),
    ;
}

impl TraceWriter for TraceTable {
    open spec fn state(&self) -> WriterView {
        WriterView {
            table: self@,
            enclosing: Seq::empty(),
            window: Window::whole(self@.columns, self@.rows),
        }
    }

    fn dimensions(&self) -> (size: (usize, usize)) {
        (self.columns(), self.rows())
    }

    fn write(&mut self, column: usize, row: usize, value: Scalar) {
        self.set(column, row, value);
    }
}

/// A writer that addresses a rectangle of another writer: it forwards each
/// write to the inner writer, with the column and the row moved by fixed
/// offsets and the value as it is.
pub struct Mapped<W: TraceWriter> {
    inner: W,
    columns: usize,
    rows: usize,
    column_offset: usize,
    row_offset: usize,
}

impl<W: TraceWriter> Mapped<W> {
    /// Wraps `inner`, to address the `columns` by `rows` cells that start
    /// at `(column_offset, row_offset)` of it.
    pub fn new(
        inner: W,
        columns: usize,
        rows: usize,
        column_offset: usize,
        row_offset: usize,
    ) -> (mapped: Mapped<W>)
        requires
            inner.state().wf(),
            column_offset + columns <= inner.state().columns(),
            row_offset + rows <= inner.state().rows(),
        ensures
            mapped.state() == inner.state().narrowed(
                column_offset as int,
                row_offset as int,
                columns as int,
                rows as int,
            ),
            mapped.state().wf(),
    {
        proof {
            inner.state().lemma_narrowed_wf(
                column_offset as int,
                row_offset as int,
                columns as int,
                rows as int,
            );
        }
        Mapped { inner, columns, rows, column_offset, row_offset }
    }

    /// Unwraps the inner writer.
    pub fn into_inner(self) -> (inner: W)
        ensures
            inner.state() == self.state().widened(),
            self.state().wf() ==> inner.state().wf(),
    {
        proof {
            self.inner.state().lemma_narrowed_widened(
                self.column_offset as int,
                self.row_offset as int,
                self.columns as int,
                self.rows as int,
            );
            if self.state().wf() {
                self.state().lemma_widened_wf();
            }
        }
        self.inner
    }
}

impl<W: TraceWriter> TraceWriter for Mapped<W> {
    closed spec fn state(&self) -> WriterView {
        self.inner.state().narrowed(
            self.column_offset as int,
            self.row_offset as int,
            self.columns as int,
            self.rows as int,
        )
    }

    fn dimensions(&self) -> (size: (usize, usize)) {
        (self.columns, self.rows)
    }

    fn write(&mut self, column: usize, row: usize, value: Scalar) {
        proof {
            self.inner.state().lemma_narrowed_widened(
                self.column_offset as int,
                self.row_offset as int,
                self.columns as int,
                self.rows as int,
            );
            self.state().lemma_widened_wf();
        }
        self.inner.write(column + self.column_offset, row + self.row_offset, value);
        proof {
            self.inner.state().lemma_narrowed_wf(
                self.column_offset as int,
                self.row_offset as int,
                self.columns as int,
                self.rows as int,
            );
        }
    }
}

} // verus!
