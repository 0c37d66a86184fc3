//! The batch pipeline: rows pulled from an external row source are
//! coerced and accumulated, and batches come out at the configured size.
//!
//! The external pull itself lives with the caller, who feeds each decoded
//! row in through [`BatchIterator::push_row`], reports a source failure
//! through [`BatchIterator::fail`], and closes the sequence with
//! [`BatchIterator::finish`]. The state machine moves from `Producing` to
//! the terminal `Exhausted` or `Failed`; a failure is sticky and
//! re-surfaces on every further push.

use vstd::prelude::*;

use std::sync::Arc;

use crate::batch::{assemble, share_schema, Batch};
use crate::builder::ColumnBuilder;
use crate::coerce::{coerce_row, lemma_view_cells_push, spec_coerce_row, view_cells};
use crate::schema::{lemma_view_column_fields, ColumnarSchema, SpecColumnField};
use crate::value::{view_dynamic_value, view_dynamic_values, DynamicValue, SpecDynamicValue, SpecScalar, TypeMismatchError};

verus! {

broadcast use lemma_view_cells_push, lemma_view_column_fields, crate::value::lemma_view_dynamic_values;

/// A failure of the external row source, surfaced verbatim.
#[derive(Debug)]
pub struct SourceError {
    pub message: String,
}

/// Why an iteration ended instead of producing a batch.
#[derive(Debug)]
pub enum IterationError {
    /// A row did not match the resolved columnar schema.
    TypeMismatch(TypeMismatchError),
    /// The row source failed to decode or read.
    Source(SourceError),
}

impl IterationError {
    /// An equal error, for re-surfacing a sticky terminal failure.
    pub fn duplicate(&self) -> (r: IterationError)
        ensures
            r == *self,
    {
        match self {
            IterationError::TypeMismatch(e) => IterationError::TypeMismatch(*e),
            IterationError::Source(s) => IterationError::Source(
                SourceError { message: s.message.clone() },
            ),
        }
    }
}

/// Where the pipeline stands.
#[derive(Debug)]
pub enum IterState {
    /// Rows are being accepted.
    Producing,
    /// The source is drained; further pulls signal the end.
    Exhausted,
    /// A row or the source failed; the error re-surfaces on every
    /// further push.
    Failed(IterationError),
}

/// The pipeline state: the resolved schema, the configured batch size,
/// the open batch's accumulator, and the state machine position.
#[derive(Debug)]
pub struct BatchIterator {
    pub schema: Arc<ColumnarSchema>,
    pub batch_size: usize,
    pub builder: ColumnBuilder,
    pub state: IterState,
}

impl BatchIterator {
    /// The pipeline invariant: a positive batch size, a well-formed
    /// accumulator with one buffer per column and no half-appended row,
    /// holding strictly fewer rows than one batch.
    pub open spec fn wf(&self) -> bool {
        &&& self.batch_size >= 1
        &&& self.builder.wf()
        &&& self.builder.between_rows()
        &&& self.builder.buffers@.len() == self.schema@.fields.len()
        &&& self.builder.rows < self.batch_size
    }

    /// Opens the pipeline over a translated schema.
    pub fn new(schema: Arc<ColumnarSchema>, batch_size: usize) -> (r: BatchIterator)
        requires
            batch_size >= 1,
        ensures
            r.wf(),
            r.schema == schema,
            r.batch_size == batch_size,
            r.state is Producing,
            r.builder.rows == 0,
            forall|c: int|
                0 <= c < r.builder.buffers@.len() ==> (#[trigger] r.builder.buffers@[c]).cells@
                    == Seq::<Option<crate::value::Scalar>>::empty(),
    {
        let n = schema.fields.len();
        BatchIterator {
            builder: ColumnBuilder::new(n),
            schema,
            batch_size,
            state: IterState::Producing,
        }
    }

    /// Whether the pipeline still accepts rows.
    pub fn is_producing(&self) -> (r: bool)
        ensures
            r == (self.state is Producing),
    {
        matches!(self.state, IterState::Producing)
    }

    /// Number of rows accumulated toward the open batch.
    pub fn pending_rows(&self) -> (r: usize)
        ensures
            r == self.builder.rows,
    {
        self.builder.row_count()
    }

    /// Feeds one decoded row in. While producing, the row is coerced and
    /// appended atomically; reaching the batch size emits a batch. A row
    /// that does not match the schema moves the pipeline to `Failed` and
    /// no batch holding it is ever emitted. Once exhausted, pushes are
    /// no-ops; once failed, every push re-surfaces the terminal error.
    pub fn push_row(&mut self, row: &crate::value::DynamicValue) -> (r: Result<
        Option<Batch>,
        IterationError,
    >)
        requires
            old(self).wf(),
        ensures
            final(self).wf(),
            final(self).schema == old(self).schema,
            final(self).batch_size == old(self).batch_size,
            old(self).state is Exhausted ==> r == Ok::<Option<Batch>, IterationError>(Option::None)
                && *final(self) == *old(self),
            old(self).state matches IterState::Failed(e) ==> r == Err::<
                Option<Batch>,
                IterationError,
            >(e) && *final(self) == *old(self),
            old(self).state is Producing ==> match spec_coerce_row(
                row@,
                old(self).schema@.fields,
            ) {
                Ok(cells) => {
                    &&& final(self).state is Producing
                    &&& (if old(self).builder.rows + 1 == old(self).batch_size {
                        &&& (r matches Ok(Some(b)))
                        &&& (r matches Ok(Some(b)) ==> {
                            &&& b.wf()
                            &&& b.schema == old(self).schema
                            &&& b.rows == old(self).batch_size
                            &&& b.columns@.len() == old(self).builder.buffers@.len()
                            &&& forall|c: int|
                                0 <= c < b.columns@.len() ==> view_cells(
                                    (#[trigger] b.columns@[c]).cells@,
                                ) == view_cells(old(self).builder.buffers@[c].cells@).push(
                                    cells[c],
                                )
                            &&& final(self).builder.rows == 0
                            &&& forall|c: int|
                                0 <= c < final(self).builder.buffers@.len() ==> (
                                #[trigger] final(self).builder.buffers@[c]).cells@ == Seq::<
                                    Option<crate::value::Scalar>,
                                >::empty()
                        })
                    } else {
                        &&& r == Ok::<Option<Batch>, IterationError>(Option::None)
                        &&& final(self).builder.rows == old(self).builder.rows + 1
                        &&& final(self).builder.buffers@.len() == old(
                            self,
                        ).builder.buffers@.len()
                        &&& forall|c: int|
                            0 <= c < final(self).builder.buffers@.len() ==> view_cells(
                                (#[trigger] final(self).builder.buffers@[c]).cells@,
                            ) == view_cells(old(self).builder.buffers@[c].cells@).push(cells[c])
                    })
                },
                Err(_) => {
                    &&& r == Err::<Option<Batch>, IterationError>(
                        IterationError::TypeMismatch(TypeMismatchError),
                    )
                    &&& final(self).state == IterState::Failed(
                        IterationError::TypeMismatch(TypeMismatchError),
                    )
                    &&& final(self).builder.rows == old(self).builder.rows
                    &&& final(self).builder.buffers@ == old(self).builder.buffers@
                },
            },
    {
        match &self.state {
            IterState::Exhausted => Ok(Option::None),
            IterState::Failed(e) => Err(e.duplicate()),
            IterState::Producing => {
                let mut cells = match coerce_row(row, &self.schema.fields) {
                    Ok(cells) => cells,
                    Err(_) => {
                        self.state = IterState::Failed(
                            IterationError::TypeMismatch(TypeMismatchError),
                        );
                        return Err(IterationError::TypeMismatch(TypeMismatchError));
                    },
                };
                let ghost cells0 = cells@;
                let ghost pre_builder = self.builder;
                let n = cells.len();
                let mut c: usize = 0;
                while c < n
                    invariant
                        old(self).wf(),
                        self.schema == old(self).schema,
                        self.batch_size == old(self).batch_size,
                        self.state is Producing,
                        0 <= c <= n,
                        n == cells0.len(),
                        cells@ == cells0.skip(c as int),
                        pre_builder.wf(),
                        pre_builder.between_rows(),
                        n == pre_builder.buffers@.len(),
                        self.builder.wf(),
                        self.builder.filled == c,
                        self.builder.rows == pre_builder.rows,
                        self.builder.buffers@.len() == pre_builder.buffers@.len(),
                        forall|k: int|
                            0 <= k < c ==> (#[trigger] self.builder.buffers@[k]).cells@
                                == pre_builder.buffers@[k].cells@.push(cells0[k]),
                        forall|k: int|
                            c <= k < n ==> #[trigger] self.builder.buffers@[k]
                                == pre_builder.buffers@[k],
                    decreases n - c,
                {
                    let cell = cells.remove(0);
                    self.builder.append(c, cell);
                    proof {
                        assert(cells@ =~= cells0.skip(c as int + 1));
                    }
                    c = c + 1;
                }
                proof {
                    assert(self.builder.rows + 1 <= usize::MAX);
                }
                self.builder.complete_row();
                if self.builder.is_batch_full(self.batch_size) {
                    let bufs = self.builder.take();
                    let batch = assemble(&self.schema, bufs, self.batch_size);
                    Ok(Option::Some(batch))
                } else {
                    Ok(Option::None)
                }
            },
        }
    }

    /// Records a failure of the external row source; the pipeline
    /// commits to `Failed` and returns the terminal error to surface.
    pub fn fail(&mut self, error: SourceError) -> (r: IterationError)
        requires
            old(self).wf(),
        ensures
            final(self).wf(),
            final(self).schema == old(self).schema,
            final(self).batch_size == old(self).batch_size,
            final(self).state == IterState::Failed(IterationError::Source(error)),
            r == IterationError::Source(error),
    {
        let surfaced = IterationError::Source(SourceError { message: error.message.clone() });
        self.state = IterState::Failed(IterationError::Source(error));
        surfaced
    }

    /// Closes the sequence after the source is drained: a nonempty
    /// partial batch is emitted, and the pipeline reaches `Exhausted`.
    /// On a pipeline no longer producing, this is a no-op.
    pub fn finish(&mut self) -> (r: Option<Batch>)
        requires
            old(self).wf(),
        ensures
            final(self).wf(),
            final(self).schema == old(self).schema,
            final(self).batch_size == old(self).batch_size,
            !(old(self).state is Producing) ==> r is None && *final(self) == *old(self),
            old(self).state is Producing && old(self).builder.rows == 0 ==> r is None
                && final(self).state is Exhausted && final(self).builder.buffers@ == old(
                self,
            ).builder.buffers@,
            old(self).state is Producing && old(self).builder.rows > 0 ==> {
                &&& (r matches Some(b))
                &&& (r matches Some(b) ==> {
                    &&& b.wf()
                    &&& b.schema == old(self).schema
                    &&& b.rows == old(self).builder.rows
                    &&& b.columns@ == old(self).builder.buffers@
                    &&& final(self).state is Exhausted
                    &&& final(self).builder.rows == 0
                })
            },
    {
        match &self.state {
            IterState::Producing => {
                if self.builder.row_count() == 0 {
                    self.state = IterState::Exhausted;
                    Option::None
                } else {
                    let rows = self.builder.row_count();
                    let bufs = self.builder.take();
                    let batch = assemble(&self.schema, bufs, rows);
                    self.state = IterState::Exhausted;
                    Option::Some(batch)
                }
            },
            _ => Option::None,
        }
    }
}

// ---------------------------------------------------------------------
// Driving a whole in-memory row sequence through the pipeline.
// ---------------------------------------------------------------------

/// Total number of rows across a sequence of batches.
pub open spec fn sum_rows(batches: Seq<Batch>) -> int
    decreases batches,
{
    if batches.len() == 0 {
        0
    } else {
        sum_rows(batches.drop_last()) + batches.last().rows
    }
}

/// The cells of column `c`, concatenated across a sequence of batches.
pub open spec fn concat_cells(batches: Seq<Batch>, c: int) -> Seq<Option<SpecScalar>>
    decreases batches,
{
    if batches.len() == 0 {
        Seq::empty()
    } else {
        concat_cells(batches.drop_last(), c) + view_cells(batches.last().columns@[c].cells@)
    }
}

/// The cells of column `c` that coercing each of `rows` in order
/// produces.
pub open spec fn coerced_column(
    rows: Seq<SpecDynamicValue>,
    fields: Seq<SpecColumnField>,
    c: int,
) -> Seq<Option<SpecScalar>> {
    Seq::new(rows.len(), |i: int| spec_coerce_row(rows[i], fields)->Ok_0[c])
}

pub broadcast proof fn lemma_sum_rows_push(batches: Seq<Batch>, b: Batch)
    ensures
        #[trigger] sum_rows(batches.push(b)) == sum_rows(batches) + b.rows,
{
    assert(batches.push(b).drop_last() =~= batches);
}

pub broadcast proof fn lemma_concat_cells_push(batches: Seq<Batch>, b: Batch, c: int)
    ensures
        #[trigger] concat_cells(batches.push(b), c) == concat_cells(batches, c) + view_cells(
            b.columns@[c].cells@,
        ),
{
    assert(batches.push(b).drop_last() =~= batches);
}

/// How many batches a row count splits into, from its whole and partial
/// parts.
proof fn lemma_ceil_from_parts(n: int, b: int, k: int, p: int)
    requires
        b >= 1,
        0 <= p < b,
        k >= 0,
        n == k * b + p,
    ensures
        crate::spec_ceil_div(n, b) == if p == 0 {
            k
        } else {
            k + 1
        },
{
    if p == 0 {
        vstd::arithmetic::div_mod::lemma_fundamental_div_mod_converse(n + b - 1, b, k, b - 1);
    } else {
        assert(n + b - 1 == (k + 1) * b + (p - 1)) by (nonlinear_arith)
            requires
                n == k * b + p,
        ;
        vstd::arithmetic::div_mod::lemma_fundamental_div_mod_converse(n + b - 1, b, k + 1, p - 1);
    }
}

/// Drives a finite, already decoded row sequence through the pipeline.
///
/// For `N` rows at batch size `B`, success yields exactly
/// `ceil(N / B)` batches: every batch but the last holds exactly `B`
/// rows, the last holds the remainder, the counts sum to `N`, every
/// batch satisfies the batch-shape invariant, and concatenating any
/// column across the batches reproduces the coerced input cells in
/// order. Failure happens exactly when some row does not match the
/// schema, and then no batch is handed out at all.
pub fn collect_batches(
    schema: &Arc<ColumnarSchema>,
    rows: &Vec<DynamicValue>,
    batch_size: usize,
) -> (r: Result<Vec<Batch>, IterationError>)
    requires
        batch_size >= 1,
    ensures
        match r {
            Ok(batches) => {
                &&& forall|i: int|
                    0 <= i < rows@.len() ==> spec_coerce_row(
                        #[trigger] view_dynamic_values(rows@)[i],
                        (**schema)@.fields,
                    ) is Ok
                &&& batches@.len() == crate::spec_ceil_div(
                    rows@.len() as int,
                    batch_size as int,
                )
                &&& sum_rows(batches@) == rows@.len()
                &&& forall|k: int| 0 <= k < batches@.len() ==> (#[trigger] batches@[k]).wf()
                &&& forall|k: int|
                    0 <= k < batches@.len() ==> (#[trigger] batches@[k]).schema == *schema
                &&& forall|k: int|
                    0 <= k < batches@.len() - 1 ==> (#[trigger] batches@[k]).rows == batch_size
                &&& batches@.len() > 0 ==> batches@.last().rows == rows@.len() - (batches@.len()
                    - 1) * batch_size
                &&& forall|c: int|
                    0 <= c < (**schema)@.fields.len() ==> #[trigger] concat_cells(batches@, c)
                        == coerced_column(
                        view_dynamic_values(rows@),
                        (**schema)@.fields,
                        c,
                    )
            },
            Err(e) => {
                &&& e == IterationError::TypeMismatch(TypeMismatchError)
                &&& exists|i: int|
                    0 <= i < rows@.len() && spec_coerce_row(
                        #[trigger] view_dynamic_values(rows@)[i],
                        (**schema)@.fields,
                    ) is Err
            },
        },
{
    let ghost rowsv = view_dynamic_values(rows@);
    let ghost fields = (**schema)@.fields;
    let mut it = BatchIterator::new(share_schema(schema), batch_size);
    let mut batches: Vec<Batch> = Vec::new();
    let mut i: usize = 0;
    proof {
        assert forall|c: int| 0 <= c < fields.len() implies #[trigger] concat_cells(batches@, c)
            + view_cells(it.builder.buffers@[c].cells@) =~= coerced_column(
            rowsv.take(0),
            fields,
            c,
        ) by {
            assert(view_cells(it.builder.buffers@[c].cells@) =~= Seq::<Option<SpecScalar>>::empty());
        }
    }
    while i < rows.len()
        invariant
            batch_size >= 1,
            0 <= i <= rows@.len(),
            rowsv == view_dynamic_values(rows@),
            rowsv.len() == rows@.len(),
            fields == (**schema)@.fields,
            it.wf(),
            it.schema == *schema,
            it.batch_size == batch_size,
            it.state is Producing,
            sum_rows(batches@) == i - it.builder.rows,
            sum_rows(batches@) == batches@.len() * batch_size,
            forall|k: int| 0 <= k < batches@.len() ==> (#[trigger] batches@[k]).wf(),
            forall|k: int| 0 <= k < batches@.len() ==> (#[trigger] batches@[k]).schema == *schema,
            forall|k: int| 0 <= k < batches@.len() ==> (#[trigger] batches@[k]).rows == batch_size,
            forall|j: int| 0 <= j < i ==> spec_coerce_row(
                #[trigger] rowsv[j],
                fields,
            ) is Ok,
            forall|c: int|
                0 <= c < fields.len() ==> #[trigger] concat_cells(batches@, c) + view_cells(
                    it.builder.buffers@[c].cells@,
                ) == coerced_column(rowsv.take(i as int), fields, c),
        decreases rows@.len() - i,
    {
        let ghost pre_it = it;
        let ghost pre_batches = batches@;
        match it.push_row(&rows[i]) {
            Ok(Option::None) => {
                proof {
                    assert(rowsv[i as int] == view_dynamic_value(rows@[i as int]));
                    assert(pre_it.schema@.fields == fields);
                    assert(spec_coerce_row(rowsv[i as int], fields) is Ok);
                    let cells = spec_coerce_row(rowsv[i as int], fields)->Ok_0;
                    assert forall|c: int| 0 <= c < fields.len() implies #[trigger] concat_cells(
                        batches@,
                        c,
                    ) + view_cells(it.builder.buffers@[c].cells@) == coerced_column(
                        rowsv.take(i as int + 1),
                        fields,
                        c,
                    ) by {
                        assert(view_cells(it.builder.buffers@[c].cells@) == view_cells(
                            pre_it.builder.buffers@[c].cells@,
                        ).push(cells[c]));
                        assert(concat_cells(batches@, c) + view_cells(
                            it.builder.buffers@[c].cells@,
                        ) =~= (concat_cells(batches@, c) + view_cells(
                            pre_it.builder.buffers@[c].cells@,
                        )).push(cells[c]));
                        assert(coerced_column(rowsv.take(i as int + 1), fields, c)
                            =~= coerced_column(rowsv.take(i as int), fields, c).push(cells[c]));
                    }
                }
                ;
            },
            Ok(Option::Some(batch)) => {
                proof {
                    let cells = spec_coerce_row(rowsv[i as int], fields)->Ok_0;
                    assert forall|c: int| 0 <= c < fields.len() implies #[trigger] concat_cells(
                        pre_batches.push(batch),
                        c,
                    ) + view_cells(it.builder.buffers@[c].cells@) == coerced_column(
                        rowsv.take(i as int + 1),
                        fields,
                        c,
                    ) by {
                        lemma_concat_cells_push(pre_batches, batch, c);
                        assert(view_cells(batch.columns@[c].cells@) == view_cells(
                            pre_it.builder.buffers@[c].cells@,
                        ).push(cells[c]));
                        assert(view_cells(it.builder.buffers@[c].cells@) =~= Seq::<
                            Option<SpecScalar>,
                        >::empty());
                        assert(concat_cells(pre_batches.push(batch), c) + view_cells(
                            it.builder.buffers@[c].cells@,
                        ) =~= (concat_cells(pre_batches, c) + view_cells(
                            pre_it.builder.buffers@[c].cells@,
                        )).push(cells[c]));
                        assert(coerced_column(rowsv.take(i as int + 1), fields, c)
                            =~= coerced_column(rowsv.take(i as int), fields, c).push(cells[c]));
                    }
                    lemma_sum_rows_push(pre_batches, batch);
                    assert((pre_batches.len() + 1) * batch_size == pre_batches.len() * batch_size
                        + batch_size) by (nonlinear_arith);
                }
                batches.push(batch);
            },
            Err(e) => {
                proof {
                    assert(spec_coerce_row(view_dynamic_values(rows@)[i as int], fields) is Err);
                }
                return Err(e);
            },
        }
        i = i + 1;
    }
    let pending = it.pending_rows();
    let ghost pre_it = it;
    let ghost pre_batches = batches@;
    proof {
        assert(rowsv.take(rowsv.len() as int) =~= rowsv);
        lemma_ceil_from_parts(
            rows@.len() as int,
            batch_size as int,
            batches@.len() as int,
            it.builder.rows as int,
        );
    }
    match it.finish() {
        Option::Some(batch) => {
            proof {
                assert forall|c: int| 0 <= c < fields.len() implies #[trigger] concat_cells(
                    pre_batches.push(batch),
                    c,
                ) == coerced_column(rowsv, fields, c) by {
                    lemma_concat_cells_push(pre_batches, batch, c);
                    assert(view_cells(batch.columns@[c].cells@) == view_cells(
                        pre_it.builder.buffers@[c].cells@,
                    ));
                }
                lemma_sum_rows_push(pre_batches, batch);
            }
            batches.push(batch);
            proof {
                assert(batches@.last() == batch);
                assert((batches@.len() - 1) * batch_size as int == pre_batches.len()
                    * batch_size as int);
            }
            Ok(batches)
        },
        Option::None => {
            proof {
                assert forall|c: int| 0 <= c < fields.len() implies #[trigger] concat_cells(
                    batches@,
                    c,
                ) == coerced_column(rowsv, fields, c) by {
                    assert(view_cells(pre_it.builder.buffers@[c].cells@) =~= Seq::<
                        Option<SpecScalar>,
                    >::empty());
                    assert(concat_cells(batches@, c) + view_cells(
                        pre_it.builder.buffers@[c].cells@,
                    ) =~= concat_cells(batches@, c));
                }
                if batches@.len() > 0 {
                    assert((batches@.len() - 1) * batch_size as int == batches@.len()
                        * batch_size as int - batch_size as int) by (nonlinear_arith);
                }
            }
            Ok(batches)
        },
    }
}

} // verus!
