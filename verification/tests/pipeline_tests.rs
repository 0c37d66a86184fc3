use std::sync::Arc;

use avro_to_arrow::batch::{assemble, Batch};
use avro_to_arrow::builder::ColumnBuilder;
use avro_to_arrow::iterator::{collect_batches, BatchIterator, IterationError, SourceError};
use avro_to_arrow::schema::{SourceField, SourceSchema};
use avro_to_arrow::translate::translate;
use avro_to_arrow::value::{DynamicValue, Scalar};

fn nullable_field(name: &str, inner: SourceSchema) -> SourceField {
    SourceField {
        name: name.to_owned(),
        doc: None,
        schema: SourceSchema::Union(vec![SourceSchema::Null, inner]),
    }
}

/// A record schema of three nullable columns typed long, double and
/// boolean.
fn sample_schema() -> SourceSchema {
    SourceSchema::Record(vec![
        nullable_field("column1", SourceSchema::Long(None)),
        nullable_field("column3", SourceSchema::Double),
        nullable_field("column4", SourceSchema::Boolean),
    ])
}

fn sample_row(i: i64) -> DynamicValue {
    DynamicValue::Record(vec![
        (
            "column1".to_owned(),
            DynamicValue::Union(1, Box::new(DynamicValue::Long(i))),
        ),
        (
            "column3".to_owned(),
            DynamicValue::Union(1, Box::new(DynamicValue::Double((i as f64 * 0.5).to_bits()))),
        ),
        (
            "column4".to_owned(),
            DynamicValue::Union(1, Box::new(DynamicValue::Boolean(i % 2 == 0))),
        ),
    ])
}

fn assert_batch_shape(batch: &Batch) {
    assert_eq!(batch.num_columns(), batch.schema.fields.len());
    for column in &batch.columns {
        assert_eq!(column.cells.len(), batch.num_rows());
    }
}

#[test]
fn ten_rows_in_one_batch_of_ten() {
    let schema = Arc::new(translate(&sample_schema()).unwrap());
    let rows: Vec<DynamicValue> = (0..10).map(sample_row).collect();
    let batches = collect_batches(&schema, &rows, 10).unwrap();
    assert_eq!(batches.len(), 1);
    assert_eq!(batches[0].num_rows(), 10);
    assert_batch_shape(&batches[0]);
    for column in &batches[0].columns {
        for cell in &column.cells {
            assert!(cell.is_some());
        }
    }
}

#[test]
fn ten_rows_at_batch_size_four_make_batches_of_4_4_2() {
    let schema = Arc::new(translate(&sample_schema()).unwrap());
    let rows: Vec<DynamicValue> = (0..10).map(sample_row).collect();
    let batches = collect_batches(&schema, &rows, 4).unwrap();
    let counts: Vec<usize> = batches.iter().map(|b| b.num_rows()).collect();
    assert_eq!(counts, vec![4, 4, 2]);
    for batch in &batches {
        assert_batch_shape(batch);
    }
    let mut column1: Vec<i64> = Vec::new();
    for batch in &batches {
        for cell in &batch.columns[0].cells {
            match cell {
                Some(Scalar::Int64(v)) => column1.push(*v),
                other => panic!("expected a present 64-bit value, got {:?}", other),
            }
        }
    }
    assert_eq!(column1, (0..10).collect::<Vec<i64>>());
}

#[test]
fn a_mismatched_row_fails_the_iteration_and_emits_no_partial_batch() {
    let schema = Arc::new(translate(&sample_schema()).unwrap());
    let mut rows: Vec<DynamicValue> = (0..3).map(sample_row).collect();
    // a row whose column4 decodes as a non-boolean value
    rows.push(DynamicValue::Record(vec![
        (
            "column1".to_owned(),
            DynamicValue::Union(1, Box::new(DynamicValue::Long(3))),
        ),
        (
            "column3".to_owned(),
            DynamicValue::Union(1, Box::new(DynamicValue::Double(0.0f64.to_bits()))),
        ),
        (
            "column4".to_owned(),
            DynamicValue::Union(1, Box::new(DynamicValue::Long(1))),
        ),
    ]));
    match collect_batches(&schema, &rows, 10) {
        Err(IterationError::TypeMismatch(_)) => {}
        other => panic!("expected a type mismatch, got {:?}", other),
    }

    // step by step: the iterator commits to Failed and stays there
    let mut it = BatchIterator::new(Arc::clone(&schema), 10);
    for row in rows.iter().take(3) {
        assert!(matches!(it.push_row(row), Ok(None)));
    }
    assert!(matches!(
        it.push_row(&rows[3]),
        Err(IterationError::TypeMismatch(_))
    ));
    assert!(!it.is_producing());
    assert!(matches!(
        it.push_row(&rows[0]),
        Err(IterationError::TypeMismatch(_))
    ));
    assert!(it.finish().is_none());
}

#[test]
fn no_rows_make_no_batches() {
    let schema = Arc::new(translate(&sample_schema()).unwrap());
    let rows: Vec<DynamicValue> = Vec::new();
    let batches = collect_batches(&schema, &rows, 4).unwrap();
    assert_eq!(batches.len(), 0);
}

#[test]
fn batch_size_one_makes_one_batch_per_row() {
    let schema = Arc::new(translate(&sample_schema()).unwrap());
    let rows: Vec<DynamicValue> = (0..3).map(sample_row).collect();
    let batches = collect_batches(&schema, &rows, 1).unwrap();
    assert_eq!(batches.len(), 3);
    for batch in &batches {
        assert_eq!(batch.num_rows(), 1);
        assert_batch_shape(batch);
    }
}

#[test]
fn a_source_error_is_sticky() {
    let schema = Arc::new(translate(&sample_schema()).unwrap());
    let mut it = BatchIterator::new(Arc::clone(&schema), 4);
    assert!(matches!(it.push_row(&sample_row(0)), Ok(None)));
    let surfaced = it.fail(SourceError { message: "torn block".to_owned() });
    match surfaced {
        IterationError::Source(e) => assert_eq!(e.message, "torn block"),
        other => panic!("expected a source error, got {:?}", other),
    }
    match it.push_row(&sample_row(1)) {
        Err(IterationError::Source(e)) => assert_eq!(e.message, "torn block"),
        other => panic!("expected the sticky source error, got {:?}", other),
    }
    assert!(it.finish().is_none());
}

#[test]
fn finish_flushes_a_partial_batch_once() {
    let schema = Arc::new(translate(&sample_schema()).unwrap());
    let mut it = BatchIterator::new(Arc::clone(&schema), 4);
    assert!(matches!(it.push_row(&sample_row(0)), Ok(None)));
    assert!(matches!(it.push_row(&sample_row(1)), Ok(None)));
    let batch = it.finish().expect("a partial batch");
    assert_eq!(batch.num_rows(), 2);
    assert_batch_shape(&batch);
    assert!(it.finish().is_none());
    assert!(matches!(it.push_row(&sample_row(2)), Ok(None)));
}

#[test]
fn builder_appends_rows_atomically() {
    let mut b = ColumnBuilder::new(2);
    assert_eq!(b.row_count(), 0);
    b.append(0, Some(Scalar::Int64(1)));
    b.append(1, None);
    b.complete_row();
    assert_eq!(b.row_count(), 1);
    assert!(!b.is_batch_full(2));

    // a row that fails midway is rolled back
    b.append(0, Some(Scalar::Int64(2)));
    b.rollback_row();
    assert_eq!(b.row_count(), 1);
    assert_eq!(b.buffers[0].cells.len(), 1);
    assert_eq!(b.buffers[1].cells.len(), 1);

    b.append(0, Some(Scalar::Int64(3)));
    b.append(1, Some(Scalar::Boolean(true)));
    b.complete_row();
    assert!(b.is_batch_full(2));
    let bufs = b.take();
    assert_eq!(bufs.len(), 2);
    assert_eq!(bufs[0].cells.len(), 2);
    assert_eq!(bufs[1].cells.len(), 2);
    assert_eq!(b.row_count(), 0);
    assert_eq!(b.buffers[0].cells.len(), 0);
}

#[test]
fn assembled_batches_have_equal_length_columns() {
    let schema = Arc::new(translate(&sample_schema()).unwrap());
    let mut b = ColumnBuilder::new(3);
    for i in 0..5 {
        b.append(0, Some(Scalar::Int64(i)));
        b.append(1, None);
        b.append(2, Some(Scalar::Boolean(false)));
        b.complete_row();
    }
    let rows = b.row_count();
    let batch = assemble(&schema, b.take(), rows);
    assert_eq!(batch.num_rows(), 5);
    assert_batch_shape(&batch);
}

#[test]
fn batch_count_matches_ceiling_division() {
    assert_eq!(avro_to_arrow::ceil_div(0, 4), 0);
    assert_eq!(avro_to_arrow::ceil_div(8, 4), 2);
    assert_eq!(avro_to_arrow::ceil_div(10, 4), 3);
    let schema = Arc::new(translate(&sample_schema()).unwrap());
    for n in 0..10u8 {
        let rows: Vec<DynamicValue> = (0..n as i64).map(sample_row).collect();
        let batches = collect_batches(&schema, &rows, 3).unwrap();
        assert_eq!(batches.len(), avro_to_arrow::ceil_div(rows.len(), 3));
        let total: usize = batches.iter().map(|b| b.num_rows()).sum();
        assert_eq!(total, rows.len());
    }
}
