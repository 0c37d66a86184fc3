use avro_to_arrow::coerce::{coerce, coerce_row};
use avro_to_arrow::schema::{ColumnField, ColumnType};
use avro_to_arrow::value::{DynamicValue, Scalar};

fn target(name: &str, typ: ColumnType, nullable: bool) -> ColumnField {
    ColumnField { name: name.to_owned(), typ, nullable, metadata: Vec::new() }
}

#[test]
fn long_fills_int64_exactly() {
    let t = target("a", ColumnType::Int64, false);
    match coerce(&DynamicValue::Long(i64::MAX), &t) {
        Ok(Some(Scalar::Int64(v))) => assert_eq!(v, i64::MAX),
        other => panic!("expected the exact value, got {:?}", other),
    }
    match coerce(&DynamicValue::Long(-7), &t) {
        Ok(Some(Scalar::Int64(v))) => assert_eq!(v, -7),
        other => panic!("expected the exact value, got {:?}", other),
    }
}

#[test]
fn long_against_int32_is_a_mismatch() {
    let t = target("a", ColumnType::Int32, false);
    assert!(coerce(&DynamicValue::Long(1), &t).is_err());
}

#[test]
fn int_against_int64_is_a_mismatch() {
    let t = target("a", ColumnType::Int64, false);
    assert!(coerce(&DynamicValue::Int(1), &t).is_err());
}

#[test]
fn null_needs_a_nullable_target() {
    let nullable = target("a", ColumnType::Int64, true);
    let strict = target("a", ColumnType::Int64, false);
    assert!(matches!(coerce(&DynamicValue::Null, &nullable), Ok(None)));
    assert!(coerce(&DynamicValue::Null, &strict).is_err());
}

#[test]
fn union_wrapped_values_unwrap_against_nullable_targets() {
    let t = target("a", ColumnType::Int64, true);
    let present = DynamicValue::Union(1, Box::new(DynamicValue::Long(42)));
    match coerce(&present, &t) {
        Ok(Some(Scalar::Int64(v))) => assert_eq!(v, 42),
        other => panic!("expected the unwrapped value, got {:?}", other),
    }
    let absent = DynamicValue::Union(0, Box::new(DynamicValue::Null));
    assert!(matches!(coerce(&absent, &t), Ok(None)));
}

#[test]
fn union_against_tagged_union_keeps_the_branch() {
    let t = target(
        "u",
        ColumnType::TaggedUnion(vec![
            target("", ColumnType::Int32, false),
            target("", ColumnType::Utf8, false),
        ]),
        false,
    );
    let v = DynamicValue::Union(1, Box::new(DynamicValue::Str("hi".to_owned())));
    match coerce(&v, &t) {
        Ok(Some(Scalar::Union(tag, inner))) => {
            assert_eq!(tag, 1);
            match *inner {
                Scalar::Utf8(s) => assert_eq!(s, "hi"),
                other => panic!("expected a string scalar, got {:?}", other),
            }
        }
        other => panic!("expected a tagged scalar, got {:?}", other),
    }
    let bad_tag = DynamicValue::Union(5, Box::new(DynamicValue::Int(1)));
    assert!(coerce(&bad_tag, &t).is_err());
}

#[test]
fn double_bits_travel_exactly() {
    let t = target("x", ColumnType::Float64, false);
    let x: f64 = -3.5e17;
    match coerce(&DynamicValue::Double(x.to_bits()), &t) {
        Ok(Some(Scalar::Float64(bits))) => assert_eq!(f64::from_bits(bits), x),
        other => panic!("expected the exact bits, got {:?}", other),
    }
    assert!(coerce(&DynamicValue::Float(1.0f32.to_bits()), &t).is_err());
}

#[test]
fn enum_symbol_becomes_a_dictionary_symbol() {
    let t = target("c", ColumnType::Dictionary, false);
    match coerce(&DynamicValue::Enum("red".to_owned()), &t) {
        Ok(Some(Scalar::Symbol(s))) => assert_eq!(s, "red"),
        other => panic!("expected a symbol, got {:?}", other),
    }
}

#[test]
fn fixed_length_is_checked() {
    let t = target("f", ColumnType::FixedSizeBinary(4), false);
    assert!(matches!(
        coerce(&DynamicValue::Fixed(vec![1, 2, 3, 4]), &t),
        Ok(Some(Scalar::Binary(_)))
    ));
    assert!(coerce(&DynamicValue::Fixed(vec![1, 2, 3]), &t).is_err());
}

#[test]
fn arrays_coerce_item_by_item() {
    let t = target(
        "xs",
        ColumnType::List(Box::new(target("item", ColumnType::Int64, false))),
        false,
    );
    let v = DynamicValue::Array(vec![DynamicValue::Long(1), DynamicValue::Long(2)]);
    match coerce(&v, &t) {
        Ok(Some(Scalar::ListVal(items))) => {
            assert_eq!(items.len(), 2);
            assert!(matches!(items[0], Scalar::Int64(1)));
            assert!(matches!(items[1], Scalar::Int64(2)));
        }
        other => panic!("expected a list scalar, got {:?}", other),
    }
    let bad = DynamicValue::Array(vec![DynamicValue::Int(1)]);
    assert!(coerce(&bad, &t).is_err());
}

#[test]
fn rows_coerce_positionally_with_name_checks() {
    let fields = vec![
        target("a", ColumnType::Int64, false),
        target("b", ColumnType::Boolean, true),
    ];
    let row = DynamicValue::Record(vec![
        ("a".to_owned(), DynamicValue::Long(9)),
        ("b".to_owned(), DynamicValue::Null),
    ]);
    let cells = coerce_row(&row, &fields).unwrap();
    assert_eq!(cells.len(), 2);
    assert!(matches!(cells[0], Some(Scalar::Int64(9))));
    assert!(cells[1].is_none());

    let misnamed = DynamicValue::Record(vec![
        ("a".to_owned(), DynamicValue::Long(9)),
        ("c".to_owned(), DynamicValue::Null),
    ]);
    assert!(coerce_row(&misnamed, &fields).is_err());

    let not_a_record = DynamicValue::Long(1);
    assert!(coerce_row(&not_a_record, &fields).is_err());

    let wrong_arity = DynamicValue::Record(vec![("a".to_owned(), DynamicValue::Long(9))]);
    assert!(coerce_row(&wrong_arity, &fields).is_err());
}
