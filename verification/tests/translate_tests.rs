use avro_to_arrow::schema::{
    ColumnType, LogicalType, SchemaError, SourceField, SourceSchema, TimeUnit,
};
use avro_to_arrow::translate::translate;

fn field(name: &str, schema: SourceSchema) -> SourceField {
    SourceField { name: name.to_owned(), doc: None, schema }
}

#[test]
fn test_avro_schema_to_arrow_schema() {
    let source = SourceSchema::Record(vec![
        field("field1", SourceSchema::Int(None)),
        field("field2", SourceSchema::Str),
        field("field3", SourceSchema::Boolean),
    ]);
    let schema = translate(&source).unwrap();
    assert_eq!(schema.fields.len(), 3);
    assert_eq!(schema.fields[0].name, "field1");
    assert!(matches!(schema.fields[0].typ, ColumnType::Int32));
    assert!(!schema.fields[0].nullable);
    assert_eq!(schema.fields[1].name, "field2");
    assert!(matches!(schema.fields[1].typ, ColumnType::Utf8));
    assert!(!schema.fields[1].nullable);
    assert_eq!(schema.fields[2].name, "field3");
    assert!(matches!(schema.fields[2].typ, ColumnType::Boolean));
    assert!(!schema.fields[2].nullable);
}

#[test]
fn test_convert_avro_schema_to_arrow_achema() {
    let source = SourceSchema::Record(vec![
        field(
            "column1",
            SourceSchema::Union(vec![SourceSchema::Null, SourceSchema::Long(None)]),
        ),
        field(
            "column3",
            SourceSchema::Union(vec![SourceSchema::Null, SourceSchema::Double]),
        ),
        field(
            "column4",
            SourceSchema::Union(vec![SourceSchema::Null, SourceSchema::Boolean]),
        ),
    ]);
    let schema = translate(&source).unwrap();
    assert_eq!(schema.fields.len(), 3);
    assert_eq!(schema.fields[0].name, "column1");
    assert!(matches!(schema.fields[0].typ, ColumnType::Int64));
    assert!(schema.fields[0].nullable);
    assert_eq!(schema.fields[1].name, "column3");
    assert!(matches!(schema.fields[1].typ, ColumnType::Float64));
    assert!(schema.fields[1].nullable);
    assert_eq!(schema.fields[2].name, "column4");
    assert!(matches!(schema.fields[2].typ, ColumnType::Boolean));
    assert!(schema.fields[2].nullable);
}

#[test]
fn nullable_union_order_does_not_matter() {
    let source = SourceSchema::Record(vec![field(
        "a",
        SourceSchema::Union(vec![SourceSchema::Str, SourceSchema::Null]),
    )]);
    let schema = translate(&source).unwrap();
    assert!(matches!(schema.fields[0].typ, ColumnType::Utf8));
    assert!(schema.fields[0].nullable);
}

#[test]
fn multi_branch_union_stays_tagged() {
    let source = SourceSchema::Record(vec![field(
        "u",
        SourceSchema::Union(vec![
            SourceSchema::Int(None),
            SourceSchema::Str,
            SourceSchema::Boolean,
        ]),
    )]);
    let schema = translate(&source).unwrap();
    match &schema.fields[0].typ {
        ColumnType::TaggedUnion(branches) => {
            assert_eq!(branches.len(), 3);
            assert!(matches!(branches[0].typ, ColumnType::Int32));
            assert!(matches!(branches[1].typ, ColumnType::Utf8));
            assert!(matches!(branches[2].typ, ColumnType::Boolean));
        }
        other => panic!("expected a tagged union, got {:?}", other),
    }
    assert!(!schema.fields[0].nullable);
}

#[test]
fn union_with_null_and_two_others_stays_tagged() {
    let source = SourceSchema::Record(vec![field(
        "u",
        SourceSchema::Union(vec![
            SourceSchema::Null,
            SourceSchema::Long(None),
            SourceSchema::Double,
        ]),
    )]);
    let schema = translate(&source).unwrap();
    match &schema.fields[0].typ {
        ColumnType::TaggedUnion(branches) => {
            assert_eq!(branches.len(), 3);
            assert!(matches!(branches[0].typ, ColumnType::Null));
            assert!(matches!(branches[1].typ, ColumnType::Int64));
            assert!(matches!(branches[2].typ, ColumnType::Float64));
        }
        other => panic!("expected a tagged union, got {:?}", other),
    }
}

#[test]
fn map_field_is_unsupported() {
    let source = SourceSchema::Record(vec![field(
        "m",
        SourceSchema::Mapping(Box::new(SourceSchema::Long(None))),
    )]);
    match translate(&source) {
        Err(SchemaError::Unsupported(what)) => assert_eq!(what, "map"),
        other => panic!("expected an unsupported-map error, got {:?}", other),
    }
}

#[test]
fn nested_map_is_unsupported() {
    let source = SourceSchema::Record(vec![field(
        "outer",
        SourceSchema::Array(Box::new(SourceSchema::Mapping(Box::new(SourceSchema::Str)))),
    )]);
    assert!(matches!(
        translate(&source),
        Err(SchemaError::Unsupported(_))
    ));
}

#[test]
fn duplicate_field_names_fail() {
    let source = SourceSchema::Record(vec![
        field("x", SourceSchema::Int(None)),
        field("y", SourceSchema::Str),
        field("x", SourceSchema::Boolean),
    ]);
    match translate(&source) {
        Err(SchemaError::DuplicateField(name)) => assert_eq!(name, "x"),
        other => panic!("expected a duplicate-field error, got {:?}", other),
    }
}

#[test]
fn non_record_top_level_is_unsupported() {
    assert!(matches!(
        translate(&SourceSchema::Long(None)),
        Err(SchemaError::Unsupported(_))
    ));
}

#[test]
fn logical_types_override_physical_defaults() {
    let source = SourceSchema::Record(vec![
        field("d", SourceSchema::Int(Some(LogicalType::Date))),
        field("t", SourceSchema::Int(Some(LogicalType::TimeMillis))),
        field("ts", SourceSchema::Long(Some(LogicalType::TimestampMicros))),
        field("lts", SourceSchema::Long(Some(LogicalType::LocalTimestampMillis))),
        field("dec", SourceSchema::Bytes(Some(LogicalType::Decimal(10, 2)))),
        field("dur", SourceSchema::Fixed(12, Some(LogicalType::Duration))),
    ]);
    let schema = translate(&source).unwrap();
    assert!(matches!(schema.fields[0].typ, ColumnType::Date32));
    assert!(matches!(
        schema.fields[1].typ,
        ColumnType::Time32(TimeUnit::Millisecond)
    ));
    assert!(matches!(
        schema.fields[2].typ,
        ColumnType::Timestamp(TimeUnit::Microsecond, true)
    ));
    assert!(matches!(
        schema.fields[3].typ,
        ColumnType::Timestamp(TimeUnit::Millisecond, false)
    ));
    assert!(matches!(schema.fields[4].typ, ColumnType::Decimal(10, 2)));
    assert!(matches!(schema.fields[5].typ, ColumnType::Interval));
}

#[test]
fn misplaced_logical_type_is_invalid() {
    let source = SourceSchema::Record(vec![field(
        "bad",
        SourceSchema::Int(Some(LogicalType::Duration)),
    )]);
    assert!(matches!(
        translate(&source),
        Err(SchemaError::InvalidLogicalType)
    ));
}

#[test]
fn malformed_decimal_is_invalid() {
    let source = SourceSchema::Record(vec![field(
        "bad",
        SourceSchema::Bytes(Some(LogicalType::Decimal(5, 9))),
    )]);
    assert!(matches!(
        translate(&source),
        Err(SchemaError::InvalidLogicalType)
    ));
}

#[test]
fn array_enum_fixed_and_nested_record_resolve() {
    let source = SourceSchema::Record(vec![
        field("xs", SourceSchema::Array(Box::new(SourceSchema::Long(None)))),
        field(
            "color",
            SourceSchema::Enum(vec!["red".to_owned(), "green".to_owned()]),
        ),
        field("raw", SourceSchema::Fixed(16, None)),
        field(
            "inner",
            SourceSchema::Record(vec![field("n", SourceSchema::Int(None))]),
        ),
    ]);
    let schema = translate(&source).unwrap();
    match &schema.fields[0].typ {
        ColumnType::List(item) => {
            assert_eq!(item.name, "item");
            assert!(matches!(item.typ, ColumnType::Int64));
        }
        other => panic!("expected a list, got {:?}", other),
    }
    assert!(matches!(schema.fields[1].typ, ColumnType::Dictionary));
    assert!(matches!(schema.fields[2].typ, ColumnType::FixedSizeBinary(16)));
    match &schema.fields[3].typ {
        ColumnType::Struct(fields) => {
            assert_eq!(fields.len(), 1);
            assert_eq!(fields[0].name, "n");
        }
        other => panic!("expected a struct, got {:?}", other),
    }
}

#[test]
fn field_documentation_is_kept_as_metadata() {
    let source = SourceSchema::Record(vec![SourceField {
        name: "x".to_owned(),
        doc: Some("an example".to_owned()),
        schema: SourceSchema::Int(None),
    }]);
    let schema = translate(&source).unwrap();
    assert_eq!(schema.fields[0].metadata.len(), 1);
    assert_eq!(schema.fields[0].metadata[0].0, "doc");
    assert_eq!(schema.fields[0].metadata[0].1, "an example");
}
