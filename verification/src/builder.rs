//! Column accumulation: per-column buffers that grow row by row, with
//! atomic row append.
//!
//! A row is appended cell by cell, in column order; `complete_row` seals
//! it. If a cell of the row cannot be produced, `rollback_row` removes
//! the cells already appended, so the buffers never end a row at
//! mismatched lengths.

use vstd::prelude::*;

use crate::value::Scalar;

verus! {

/// One column's buffer: one cell per appended row, `None` marking an
/// absent value.
#[derive(Debug)]
pub struct ColumnBuffer {
    pub cells: Vec<Option<Scalar>>,
}

/// The stateful accumulator for one open batch.
#[derive(Debug)]
pub struct ColumnBuilder {
    pub buffers: Vec<ColumnBuffer>,
    /// Number of fully appended rows.
    pub rows: usize,
    /// Number of columns of the row currently being appended.
    pub filled: usize,
}

impl ColumnBuilder {
    /// Buffers of completed rows only, each of the same length, except
    /// that the first `filled` columns carry one cell of the open row.
    pub open spec fn wf(&self) -> bool {
        &&& self.filled <= self.buffers@.len()
        &&& forall|c: int|
            0 <= c < self.filled ==> (#[trigger] self.buffers@[c]).cells@.len() == self.rows + 1
        &&& forall|c: int|
            self.filled <= c < self.buffers@.len() ==> (#[trigger] self.buffers@[c]).cells@.len()
                == self.rows
    }

    /// No row is half appended.
    pub open spec fn between_rows(&self) -> bool {
        self.filled == 0
    }

    /// Creates a builder with one empty buffer per column.
    pub fn new(num_columns: usize) -> (r: ColumnBuilder)
        ensures
            r.wf(),
            r.between_rows(),
            r.buffers@.len() == num_columns,
            r.rows == 0,
            forall|c: int| 0 <= c < num_columns ==> (#[trigger] r.buffers@[c]).cells@ == Seq::<
                Option<Scalar>,
            >::empty(),
    {
        let mut buffers: Vec<ColumnBuffer> = Vec::new();
        let mut c: usize = 0;
        while c < num_columns
            invariant
                0 <= c <= num_columns,
                buffers@.len() == c,
                forall|k: int| 0 <= k < c ==> (#[trigger] buffers@[k]).cells@ == Seq::<
                    Option<Scalar>,
                >::empty(),
            decreases num_columns - c,
        {
            buffers.push(ColumnBuffer { cells: Vec::new() });
            c = c + 1;
        }
        ColumnBuilder { buffers, rows: 0, filled: 0 }
    }

    /// Number of fully appended rows.
    pub fn row_count(&self) -> (r: usize)
        ensures
            r == self.rows,
    {
        self.rows
    }

    /// Whether the open batch has reached the configured size.
    pub fn is_batch_full(&self, batch_size: usize) -> (r: bool)
        ensures
            r == (self.rows == batch_size),
    {
        self.rows == batch_size
    }

    /// Appends the next cell of the open row; cells arrive in column
    /// order.
    pub fn append(&mut self, field_index: usize, value: Option<Scalar>)
        requires
            old(self).wf(),
            field_index == old(self).filled,
            old(self).filled < old(self).buffers@.len(),
        ensures
            final(self).wf(),
            final(self).buffers@.len() == old(self).buffers@.len(),
            final(self).rows == old(self).rows,
            final(self).filled == old(self).filled + 1,
            final(self).buffers@[field_index as int].cells@ == old(self).buffers@[
                field_index as int
            ].cells@.push(value),
            forall|c: int|
                0 <= c < final(self).buffers@.len() && c != field_index
                    ==> #[trigger] final(self).buffers@[c] == old(self).buffers@[c],
    {
        proof {
            assert(self.buffers.len() == self.buffers@.len());
        }
        self.buffers[field_index].cells.push(value);
        self.filled = self.filled + 1;
    }

    /// Seals the open row.
    pub fn complete_row(&mut self)
        requires
            old(self).wf(),
            old(self).filled == old(self).buffers@.len(),
            old(self).rows + 1 <= usize::MAX,
        ensures
            final(self).wf(),
            final(self).between_rows(),
            final(self).buffers@ == old(self).buffers@,
            final(self).rows == old(self).rows + 1,
    {
        self.rows = self.rows + 1;
        self.filled = 0;
    }

    /// Removes the cells of the half-appended row, restoring every
    /// buffer to the length of the completed rows.
    pub fn rollback_row(&mut self)
        requires
            old(self).wf(),
        ensures
            final(self).wf(),
            final(self).between_rows(),
            final(self).buffers@.len() == old(self).buffers@.len(),
            final(self).rows == old(self).rows,
            forall|c: int|
                0 <= c < final(self).buffers@.len() ==> (#[trigger] final(self).buffers@[c]).cells@
                    == old(self).buffers@[c].cells@.take(old(self).rows as int),
    {
        let ghost pre = *self;
        let mut c: usize = 0;
        while c < self.filled
            invariant
                pre.wf(),
                0 <= c <= self.filled,
                self.filled == pre.filled,
                self.rows == pre.rows,
                self.buffers@.len() == pre.buffers@.len(),
                self.filled <= self.buffers@.len(),
                forall|k: int|
                    0 <= k < c ==> (#[trigger] self.buffers@[k]).cells@ == pre.buffers@[
                        k
                    ].cells@.take(pre.rows as int),
                forall|k: int|
                    c <= k < self.buffers@.len() ==> #[trigger] self.buffers@[k] == pre.buffers@[k],
            decreases self.filled - c,
        {
            self.buffers[c].cells.truncate(self.rows);
            proof {
                assert(self.buffers@[c as int].cells@ =~= pre.buffers@[c as int].cells@.take(
                    pre.rows as int,
                ));
            }
            c = c + 1;
        }
        self.filled = 0;
        proof {
            assert forall|k: int|
                0 <= k < self.buffers@.len() implies (#[trigger] self.buffers@[k]).cells@
                == pre.buffers@[k].cells@.take(pre.rows as int) by {
                if k >= pre.filled {
                    assert(self.buffers@[k] == pre.buffers@[k]);
                    assert(pre.buffers@[k].cells@.take(pre.rows as int) =~= pre.buffers@[
                        k
                    ].cells@);
                }
            }
        }
    }

    /// Hands the accumulated buffers out and resets the builder to
    /// empty, ready for the next batch.
    pub fn take(&mut self) -> (r: Vec<ColumnBuffer>)
        requires
            old(self).wf(),
            old(self).between_rows(),
        ensures
            final(self).wf(),
            final(self).between_rows(),
            final(self).rows == 0,
            final(self).buffers@.len() == old(self).buffers@.len(),
            forall|c: int|
                0 <= c < final(self).buffers@.len() ==> (#[trigger] final(self).buffers@[c]).cells@
                    == Seq::<Option<Scalar>>::empty(),
            r@ == old(self).buffers@,
    {
        let n = self.buffers.len();
        let fresh = ColumnBuilder::new(n);
        let mut taken: Vec<ColumnBuffer> = fresh.buffers;
        core::mem::swap(&mut self.buffers, &mut taken);
        self.rows = 0;
        self.filled = 0;
        taken
    }
}

} // verus!
