//! Batch assembly: an immutable chunk of rows materialized into parallel,
//! equal-length column buffers sharing one columnar schema.

use vstd::prelude::*;

use std::sync::Arc;

use crate::builder::ColumnBuffer;
use crate::schema::ColumnarSchema;

verus! {

/// One immutable batch: a shared columnar schema and one finalized
/// buffer per column.
#[derive(Debug)]
pub struct Batch {
    pub schema: Arc<ColumnarSchema>,
    pub columns: Vec<ColumnBuffer>,
    pub rows: usize,
}

impl Batch {
    /// The batch-shape invariant: one column per schema field, and every
    /// column holds exactly one cell per row.
    pub open spec fn wf(&self) -> bool {
        &&& self.columns@.len() == self.schema@.fields.len()
        &&& forall|c: int|
            0 <= c < self.columns@.len() ==> (#[trigger] self.columns@[c]).cells@.len()
                == self.rows
    }

    /// Number of rows materialized in this batch.
    pub fn num_rows(&self) -> (r: usize)
        ensures
            r == self.rows,
    {
        self.rows
    }

    /// Number of columns.
    pub fn num_columns(&self) -> (r: usize)
        ensures
            r == self.columns@.len(),
    {
        self.columns.len()
    }
}

/// Relies on `std::sync::Arc::clone`: the clone is a handle to the same
/// allocation, so it carries the same value.
#[verifier::external_body]
pub fn share_schema(schema: &Arc<ColumnarSchema>) -> (r: Arc<ColumnarSchema>)
    ensures
        r == *schema,
{
    Arc::clone(schema)
}

/// Assembles finalized column buffers into a batch, enforcing the
/// batch-shape invariant: one buffer per schema field, all of one
/// length.
pub fn assemble(schema: &Arc<ColumnarSchema>, buffers: Vec<ColumnBuffer>, rows: usize) -> (r: Batch)
    requires
        buffers@.len() == (**schema)@.fields.len(),
        forall|c: int|
            0 <= c < buffers@.len() ==> (#[trigger] buffers@[c]).cells@.len() == rows,
    ensures
        r.wf(),
        r.schema == *schema,
        r.columns@ == buffers@,
        r.rows == rows,
{
    Batch { schema: share_schema(schema), columns: buffers, rows }
}

} // verus!
