//! Value coercion: one decoded row value against one resolved column.
//!
//! Coercion is exact-width: a decoded 32-bit integer fills only a 32-bit
//! column, a 64-bit integer only a 64-bit column, and so on; a mismatch
//! is an error, never a silent cast.

use vstd::prelude::*;

use crate::schema::{ColumnField, ColumnType, SpecColumnField, SpecColumnType};
use crate::value::{
    lemma_view_dynamic_pairs, lemma_view_dynamic_values, lemma_view_scalars, view_dynamic_pair,
    view_dynamic_pairs, view_dynamic_value, view_dynamic_values, view_opt_scalar, view_scalar,
    view_scalars, DynamicValue, Scalar, SpecDynamicValue, SpecScalar, TypeMismatchError,
};
use crate::schema::{lemma_view_column_fields, view_column_field, view_column_fields};

verus! {

broadcast use lemma_view_dynamic_values, lemma_view_dynamic_pairs, lemma_view_scalars,
    lemma_view_column_fields;

// ---------------------------------------------------------------------
// The coercion rules, stated mathematically.
// ---------------------------------------------------------------------

/// Coerces one value against a column type and nullability. The result
/// is `SpecScalar::Null` exactly for an accepted absent value.
pub open spec fn spec_coerce(v: SpecDynamicValue, typ: SpecColumnType, nullable: bool) -> Result<
    SpecScalar,
    TypeMismatchError,
>
    decreases v, (if nullable { 1int } else { 0int }),
{
    match v {
        SpecDynamicValue::Null => if nullable || typ is Null {
            Ok(SpecScalar::Null)
        } else {
            Err(TypeMismatchError)
        },
        SpecDynamicValue::Union(tag, inner) => if nullable {
            if *inner is Null {
                Ok(SpecScalar::Null)
            } else {
                spec_coerce(*inner, typ, false)
            }
        } else {
            match typ {
                SpecColumnType::TaggedUnion(branches) => if (tag as int) < branches.len() {
                    match spec_coerce(
                        *inner,
                        branches[tag as int].typ,
                        branches[tag as int].nullable,
                    ) {
                        Ok(s) => Ok(SpecScalar::Union(tag, Box::new(s))),
                        Err(e) => Err(e),
                    }
                } else {
                    Err(TypeMismatchError)
                },
                _ => Err(TypeMismatchError),
            }
        },
        _ => if nullable {
            spec_coerce(v, typ, false)
        } else {
            match v {
                SpecDynamicValue::Boolean(b) => if typ is Boolean {
                    Ok(SpecScalar::Boolean(b))
                } else {
                    Err(TypeMismatchError)
                },
                SpecDynamicValue::Int(i) => match typ {
                    SpecColumnType::Int32 => Ok(SpecScalar::Int32(i)),
                    SpecColumnType::Date32 => Ok(SpecScalar::Int32(i)),
                    SpecColumnType::Time32(_) => Ok(SpecScalar::Int32(i)),
                    _ => Err(TypeMismatchError),
                },
                SpecDynamicValue::Long(l) => match typ {
                    SpecColumnType::Int64 => Ok(SpecScalar::Int64(l)),
                    SpecColumnType::Time64(_) => Ok(SpecScalar::Int64(l)),
                    SpecColumnType::Timestamp(_, _) => Ok(SpecScalar::Int64(l)),
                    _ => Err(TypeMismatchError),
                },
                SpecDynamicValue::Float(bits) => if typ is Float32 {
                    Ok(SpecScalar::Float32(bits))
                } else {
                    Err(TypeMismatchError)
                },
                SpecDynamicValue::Double(bits) => if typ is Float64 {
                    Ok(SpecScalar::Float64(bits))
                } else {
                    Err(TypeMismatchError)
                },
                SpecDynamicValue::Bytes(b) => match typ {
                    SpecColumnType::Binary => Ok(SpecScalar::Binary(b)),
                    SpecColumnType::Decimal(_, _) => Ok(SpecScalar::Binary(b)),
                    _ => Err(TypeMismatchError),
                },
                SpecDynamicValue::Str(s) => if typ is Utf8 {
                    Ok(SpecScalar::Utf8(s))
                } else {
                    Err(TypeMismatchError)
                },
                SpecDynamicValue::Enum(sym) => if typ is Dictionary {
                    Ok(SpecScalar::Symbol(sym))
                } else {
                    Err(TypeMismatchError)
                },
                SpecDynamicValue::Fixed(b) => match typ {
                    SpecColumnType::FixedSizeBinary(n) => if b.len() == n {
                        Ok(SpecScalar::Binary(b))
                    } else {
                        Err(TypeMismatchError)
                    },
                    SpecColumnType::Decimal(_, _) => Ok(SpecScalar::Binary(b)),
                    SpecColumnType::Interval => Ok(SpecScalar::Binary(b)),
                    _ => Err(TypeMismatchError),
                },
                SpecDynamicValue::Array(items) => match typ {
                    SpecColumnType::List(f) => match spec_coerce_items(items, *f) {
                        Ok(ss) => Ok(SpecScalar::ListVal(ss)),
                        Err(e) => Err(e),
                    },
                    _ => Err(TypeMismatchError),
                },
                SpecDynamicValue::Record(pairs) => match typ {
                    SpecColumnType::Struct(fields) => if pairs.len() == fields.len() {
                        match spec_coerce_pairs(pairs, fields) {
                            Ok(ss) => Ok(SpecScalar::StructVal(ss)),
                            Err(e) => Err(e),
                        }
                    } else {
                        Err(TypeMismatchError)
                    },
                    _ => Err(TypeMismatchError),
                },
                _ => Err(TypeMismatchError),
            }
        },
    }
}

/// Coerces every item of a decoded array against the list's item column.
pub open spec fn spec_coerce_items(items: Seq<SpecDynamicValue>, f: SpecColumnField) -> Result<
    Seq<SpecScalar>,
    TypeMismatchError,
>
    decreases items, 0int,
{
    if items.len() == 0 {
        Ok(Seq::empty())
    } else {
        match spec_coerce_items(items.drop_last(), f) {
            Ok(ss) => match spec_coerce(items.last(), f.typ, f.nullable) {
                Ok(s) => Ok(ss.push(s)),
                Err(e) => Err(e),
            },
            Err(e) => Err(e),
        }
    }
}

/// Coerces one named decoded field against its struct column: the names
/// must agree and the value must coerce.
pub open spec fn spec_coerce_pair(p: (Seq<char>, SpecDynamicValue), f: SpecColumnField) -> Result<
    SpecScalar,
    TypeMismatchError,
>
    decreases p, 0int,
{
    if p.0 == f.name {
        spec_coerce(p.1, f.typ, f.nullable)
    } else {
        Err(TypeMismatchError)
    }
}

/// Coerces the named fields of a decoded record against the columns of a
/// struct, in order.
pub open spec fn spec_coerce_pairs(
    pairs: Seq<(Seq<char>, SpecDynamicValue)>,
    fields: Seq<SpecColumnField>,
) -> Result<Seq<SpecScalar>, TypeMismatchError>
    decreases pairs, 0int,
{
    if pairs.len() == 0 {
        Ok(Seq::empty())
    } else if fields.len() == 0 {
        Err(TypeMismatchError)
    } else {
        match spec_coerce_pairs(pairs.drop_last(), fields.drop_last()) {
            Ok(ss) => match spec_coerce_pair(pairs.last(), fields.last()) {
                Ok(s) => Ok(ss.push(s)),
                Err(e) => Err(e),
            },
            Err(e) => Err(e),
        }
    }
}

/// The coercion surface of one whole cell: an accepted absent value is
/// `None`, an accepted present value is `Some`.
pub open spec fn spec_coerce_cell(v: SpecDynamicValue, typ: SpecColumnType, nullable: bool) -> Result<
    Option<SpecScalar>,
    TypeMismatchError,
> {
    match spec_coerce(v, typ, nullable) {
        Ok(s) => if s is Null {
            Ok(Option::None)
        } else {
            Ok(Option::Some(s))
        },
        Err(e) => Err(e),
    }
}

// ---------------------------------------------------------------------
// Error propagation through item and field sequences.
// ---------------------------------------------------------------------

proof fn lemma_coerce_items_prefix_err(items: Seq<SpecDynamicValue>, f: SpecColumnField, k: int)
    requires
        0 <= k <= items.len(),
        spec_coerce_items(items.take(k), f) matches Err(_),
    ensures
        spec_coerce_items(items, f) == spec_coerce_items(items.take(k), f),
    decreases items.len() - k,
{
    if k == items.len() {
        assert(items.take(k) =~= items);
    } else {
        assert(items.drop_last().take(k) =~= items.take(k));
        lemma_coerce_items_prefix_err(items.drop_last(), f, k);
    }
}

proof fn lemma_coerce_pairs_prefix_err(
    pairs: Seq<(Seq<char>, SpecDynamicValue)>,
    fields: Seq<SpecColumnField>,
    k: int,
)
    requires
        0 <= k <= pairs.len(),
        pairs.len() == fields.len(),
        spec_coerce_pairs(pairs.take(k), fields.take(k)) matches Err(_),
    ensures
        spec_coerce_pairs(pairs, fields) == spec_coerce_pairs(pairs.take(k), fields.take(k)),
    decreases pairs.len() - k,
{
    if k == pairs.len() {
        assert(pairs.take(k) =~= pairs);
        assert(fields.take(k) =~= fields);
    } else {
        assert(pairs.drop_last().take(k) =~= pairs.take(k));
        assert(fields.drop_last().take(k) =~= fields.take(k));
        lemma_coerce_pairs_prefix_err(pairs.drop_last(), fields.drop_last(), k);
    }
}

// ---------------------------------------------------------------------
// The executable coercion.
// ---------------------------------------------------------------------

/// View of a scalar coercion result.
pub open spec fn scalar_result_view(r: Result<Scalar, TypeMismatchError>) -> Result<
    SpecScalar,
    TypeMismatchError,
> {
    match r {
        Ok(s) => Ok(view_scalar(s)),
        Err(e) => Err(e),
    }
}

/// View of a cell coercion result.
pub open spec fn cell_result_view(r: Result<Option<Scalar>, TypeMismatchError>) -> Result<
    Option<SpecScalar>,
    TypeMismatchError,
> {
    match r {
        Ok(Option::None) => Ok(Option::None),
        Ok(Option::Some(s)) => Ok(Option::Some(view_scalar(s))),
        Err(e) => Err(e),
    }
}

/// Whether this value is the absent value.
fn is_null_value(v: &DynamicValue) -> (r: bool)
    ensures
        r == (v@ is Null),
{
    match v {
        DynamicValue::Null => true,
        _ => false,
    }
}

/// Coerces one decoded value against a column type and nullability,
/// exactly as `spec_coerce` says.
pub fn coerce_value(v: &DynamicValue, typ: &ColumnType, nullable: bool) -> (r: Result<
    Scalar,
    TypeMismatchError,
>)
    ensures
        scalar_result_view(r) == spec_coerce(v@, typ@, nullable),
    decreases *v, (if nullable { 1int } else { 0int }),
{
    match v {
        DynamicValue::Null => if nullable || matches!(typ, ColumnType::Null) {
            Ok(Scalar::Null)
        } else {
            Err(TypeMismatchError)
        },
        DynamicValue::Union(tag, inner) => if nullable {
            if is_null_value(inner) {
                Ok(Scalar::Null)
            } else {
                coerce_value(inner, typ, false)
            }
        } else {
            match typ {
                ColumnType::TaggedUnion(branches) => if *tag < branches.len() {
                    proof {
                        assert(typ@ == SpecColumnType::TaggedUnion(view_column_fields(branches@)));
                        assert(view_column_fields(branches@)[*tag as int] == view_column_field(
                            branches@[*tag as int],
                        ));
                    }
                    match coerce_value(inner, &branches[*tag].typ, branches[*tag].nullable) {
                        Ok(s) => {
                            let ghost s_view = view_scalar(s);
                            let out = Scalar::Union(*tag, Box::new(s));
                            proof {
                                assert(view_scalar(out) == SpecScalar::Union(
                                    *tag,
                                    Box::new(s_view),
                                ));
                            }
                            Ok(out)
                        },
                        Err(e) => Err(e),
                    }
                } else {
                    Err(TypeMismatchError)
                },
                _ => Err(TypeMismatchError),
            }
        },
        _ => if nullable {
            coerce_value(v, typ, false)
        } else {
            match v {
                DynamicValue::Boolean(b) => if matches!(typ, ColumnType::Boolean) {
                    Ok(Scalar::Boolean(*b))
                } else {
                    Err(TypeMismatchError)
                },
                DynamicValue::Int(i) => match typ {
                    ColumnType::Int32 => Ok(Scalar::Int32(*i)),
                    ColumnType::Date32 => Ok(Scalar::Int32(*i)),
                    ColumnType::Time32(_) => Ok(Scalar::Int32(*i)),
                    _ => Err(TypeMismatchError),
                },
                DynamicValue::Long(l) => match typ {
                    ColumnType::Int64 => Ok(Scalar::Int64(*l)),
                    ColumnType::Time64(_) => Ok(Scalar::Int64(*l)),
                    ColumnType::Timestamp(_, _) => Ok(Scalar::Int64(*l)),
                    _ => Err(TypeMismatchError),
                },
                DynamicValue::Float(bits) => if matches!(typ, ColumnType::Float32) {
                    Ok(Scalar::Float32(*bits))
                } else {
                    Err(TypeMismatchError)
                },
                DynamicValue::Double(bits) => if matches!(typ, ColumnType::Float64) {
                    Ok(Scalar::Float64(*bits))
                } else {
                    Err(TypeMismatchError)
                },
                DynamicValue::Bytes(b) => match typ {
                    ColumnType::Binary => Ok(Scalar::Binary(b.clone())),
                    ColumnType::Decimal(_, _) => Ok(Scalar::Binary(b.clone())),
                    _ => Err(TypeMismatchError),
                },
                DynamicValue::Str(s) => if matches!(typ, ColumnType::Utf8) {
                    Ok(Scalar::Utf8(s.clone()))
                } else {
                    Err(TypeMismatchError)
                },
                DynamicValue::Enum(sym) => if matches!(typ, ColumnType::Dictionary) {
                    Ok(Scalar::Symbol(sym.clone()))
                } else {
                    Err(TypeMismatchError)
                },
                DynamicValue::Fixed(b) => match typ {
                    ColumnType::FixedSizeBinary(n) => if b.len() == *n {
                        Ok(Scalar::Binary(b.clone()))
                    } else {
                        Err(TypeMismatchError)
                    },
                    ColumnType::Decimal(_, _) => Ok(Scalar::Binary(b.clone())),
                    ColumnType::Interval => Ok(Scalar::Binary(b.clone())),
                    _ => Err(TypeMismatchError),
                },
                DynamicValue::Array(items) => match typ {
                    ColumnType::List(f) => match coerce_items(items, f) {
                        Ok(ss) => Ok(Scalar::ListVal(ss)),
                        Err(e) => Err(e),
                    },
                    _ => Err(TypeMismatchError),
                },
                DynamicValue::Record(pairs) => match typ {
                    ColumnType::Struct(fields) => if pairs.len() == fields.len() {
                        match coerce_pairs(pairs, fields) {
                            Ok(ss) => Ok(Scalar::StructVal(ss)),
                            Err(e) => Err(e),
                        }
                    } else {
                        Err(TypeMismatchError)
                    },
                    _ => Err(TypeMismatchError),
                },
                _ => Err(TypeMismatchError),
            }
        },
    }
}

/// Coerces every item of a decoded array against the list's item column.
fn coerce_items(items: &Vec<DynamicValue>, f: &ColumnField) -> (r: Result<
    Vec<Scalar>,
    TypeMismatchError,
>)
    ensures
        match r {
            Ok(ss) => spec_coerce_items(view_dynamic_values(items@), f@) == Ok::<
                _,
                TypeMismatchError,
            >(view_scalars(ss@)),
            Err(e) => spec_coerce_items(view_dynamic_values(items@), f@) == Err::<
                Seq<SpecScalar>,
                _,
            >(e),
        },
    decreases *items, 0int,
{
    let ghost svs = view_dynamic_values(items@);
    let mut out: Vec<Scalar> = Vec::new();
    let mut i: usize = 0;
    assert(svs.take(0) =~= Seq::empty());
    while i < items.len()
        invariant
            0 <= i <= items.len(),
            svs == view_dynamic_values(items@),
            svs.len() == items@.len(),
            out@.len() == i,
            spec_coerce_items(svs.take(i as int), f@) == Ok::<_, TypeMismatchError>(
                view_scalars(out@),
            ),
        decreases items@.len() - i,
    {
        proof {
            assert(svs.take(i as int + 1).drop_last() =~= svs.take(i as int));
            assert(svs.take(i as int + 1).last() == svs[i as int]);
        }
        let s = match coerce_value(&items[i], &f.typ, f.nullable) {
            Ok(s) => s,
            Err(e) => {
                proof {
                    assert(svs[i as int] == view_dynamic_value(items@[i as int]));
                    assert(spec_coerce(svs[i as int], f@.typ, f@.nullable) == Err::<
                        SpecScalar,
                        TypeMismatchError,
                    >(e));
                    assert(spec_coerce_items(svs.take(i as int + 1), f@) == Err::<
                        Seq<SpecScalar>,
                        TypeMismatchError,
                    >(e));
                    lemma_coerce_items_prefix_err(svs, f@, i as int + 1);
                }
                return Err(e);
            },
        };
        proof {
            assert(svs[i as int] == view_dynamic_value(items@[i as int]));
            assert(spec_coerce(svs[i as int], f@.typ, f@.nullable) == Ok::<
                SpecScalar,
                TypeMismatchError,
            >(view_scalar(s)));
        }
        let ghost old_out = out@;
        out.push(s);
        proof {
            assert(view_scalars(out@) =~~= view_scalars(old_out).push(view_scalar(out@.last())));
        }
        i = i + 1;
    }
    proof {
        assert(svs.take(items@.len() as int) =~= svs);
    }
    Ok(out)
}

/// Coerces the named fields of a decoded record against the columns of a
/// struct, in order.
fn coerce_pairs(pairs: &Vec<(String, DynamicValue)>, fields: &Vec<ColumnField>) -> (r: Result<
    Vec<Scalar>,
    TypeMismatchError,
>)
    requires
        pairs@.len() == fields@.len(),
    ensures
        match r {
            Ok(ss) => spec_coerce_pairs(
                view_dynamic_pairs(pairs@),
                view_column_fields(fields@),
            ) == Ok::<_, TypeMismatchError>(view_scalars(ss@)),
            Err(e) => spec_coerce_pairs(view_dynamic_pairs(pairs@), view_column_fields(fields@))
                == Err::<Seq<SpecScalar>, _>(e),
        },
    decreases *pairs, 0int,
{
    let ghost sps = view_dynamic_pairs(pairs@);
    let ghost sfs = view_column_fields(fields@);
    let mut out: Vec<Scalar> = Vec::new();
    let mut i: usize = 0;
    assert(sps.take(0) =~= Seq::empty());
    assert(sfs.take(0) =~= Seq::empty());
    while i < pairs.len()
        invariant
            0 <= i <= pairs.len(),
            pairs@.len() == fields@.len(),
            sps == view_dynamic_pairs(pairs@),
            sfs == view_column_fields(fields@),
            sps.len() == pairs@.len(),
            sfs.len() == fields@.len(),
            out@.len() == i,
            spec_coerce_pairs(sps.take(i as int), sfs.take(i as int)) == Ok::<
                _,
                TypeMismatchError,
            >(view_scalars(out@)),
        decreases pairs@.len() - i,
    {
        proof {
            assert(sps.take(i as int + 1).drop_last() =~= sps.take(i as int));
            assert(sfs.take(i as int + 1).drop_last() =~= sfs.take(i as int));
            assert(sps.take(i as int + 1).last() == sps[i as int]);
            assert(sfs.take(i as int + 1).last() == sfs[i as int]);
        }
        proof {
            assert(sps[i as int] == view_dynamic_pair(pairs@[i as int]));
            assert(sfs[i as int] == view_column_field(fields@[i as int]));
            assert(sps[i as int].0 == pairs@[i as int].0@);
            assert(sps[i as int].1 == view_dynamic_value(pairs@[i as int].1));
            assert(sfs[i as int].name == fields@[i as int].name@);
        }
        if !(pairs[i].0 == fields[i].name) {
            proof {
                assert(spec_coerce_pair(sps[i as int], sfs[i as int]) == Err::<
                    SpecScalar,
                    TypeMismatchError,
                >(TypeMismatchError));
                assert(spec_coerce_pairs(sps.take(i as int + 1), sfs.take(i as int + 1)) == Err::<
                    Seq<SpecScalar>,
                    TypeMismatchError,
                >(TypeMismatchError));
                lemma_coerce_pairs_prefix_err(sps, sfs, i as int + 1);
            }
            return Err(TypeMismatchError);
        }
        let s = match coerce_value(&pairs[i].1, &fields[i].typ, fields[i].nullable) {
            Ok(s) => s,
            Err(e) => {
                proof {
                    assert(spec_coerce_pair(sps[i as int], sfs[i as int]) == Err::<
                        SpecScalar,
                        TypeMismatchError,
                    >(e));
                    assert(spec_coerce_pairs(sps.take(i as int + 1), sfs.take(i as int + 1))
                        == Err::<Seq<SpecScalar>, TypeMismatchError>(e));
                    lemma_coerce_pairs_prefix_err(sps, sfs, i as int + 1);
                }
                return Err(e);
            },
        };
        proof {
            assert(spec_coerce_pair(sps[i as int], sfs[i as int]) == Ok::<
                SpecScalar,
                TypeMismatchError,
            >(view_scalar(s)));
        }
        let ghost old_out = out@;
        out.push(s);
        proof {
            assert(view_scalars(out@) =~~= view_scalars(old_out).push(view_scalar(out@.last())));
        }
        i = i + 1;
    }
    proof {
        assert(sps.take(pairs@.len() as int) =~= sps);
        assert(sfs.take(fields@.len() as int) =~= sfs);
    }
    Ok(out)
}

/// Coerces one named decoded field against its column, as one cell.
pub open spec fn spec_coerce_cell_pair(
    p: (Seq<char>, SpecDynamicValue),
    f: SpecColumnField,
) -> Result<Option<SpecScalar>, TypeMismatchError> {
    if p.0 == f.name {
        spec_coerce_cell(p.1, f.typ, f.nullable)
    } else {
        Err(TypeMismatchError)
    }
}

/// Coerces the named fields of one decoded row against the columns of
/// the schema, in order, one cell per column.
pub open spec fn spec_coerce_row_cells(
    pairs: Seq<(Seq<char>, SpecDynamicValue)>,
    fields: Seq<SpecColumnField>,
) -> Result<Seq<Option<SpecScalar>>, TypeMismatchError>
    decreases pairs,
{
    if pairs.len() == 0 {
        Ok(Seq::empty())
    } else if fields.len() == 0 {
        Err(TypeMismatchError)
    } else {
        match spec_coerce_row_cells(pairs.drop_last(), fields.drop_last()) {
            Ok(cells) => match spec_coerce_cell_pair(pairs.last(), fields.last()) {
                Ok(cell) => Ok(cells.push(cell)),
                Err(e) => Err(e),
            },
            Err(e) => Err(e),
        }
    }
}

/// Coerces one whole decoded row: the row must be a record with one
/// field per column, in column order.
pub open spec fn spec_coerce_row(row: SpecDynamicValue, fields: Seq<SpecColumnField>) -> Result<
    Seq<Option<SpecScalar>>,
    TypeMismatchError,
> {
    match row {
        SpecDynamicValue::Record(pairs) => if pairs.len() == fields.len() {
            spec_coerce_row_cells(pairs, fields)
        } else {
            Err(TypeMismatchError)
        },
        _ => Err(TypeMismatchError),
    }
}

/// View of a sequence of cells.
pub open spec fn view_cells(s: Seq<Option<Scalar>>) -> Seq<Option<SpecScalar>> {
    Seq::new(s.len(), |i: int| view_opt_scalar(s[i]))
}

/// Pushing one cell commutes with taking views.
pub broadcast proof fn lemma_view_cells_push(s: Seq<Option<Scalar>>, x: Option<Scalar>)
    ensures
        #[trigger] view_cells(s.push(x)) == view_cells(s).push(view_opt_scalar(x)),
{
    assert(view_cells(s.push(x)) =~= view_cells(s).push(view_opt_scalar(x)));
}

proof fn lemma_coerce_row_cells_prefix_err(
    pairs: Seq<(Seq<char>, SpecDynamicValue)>,
    fields: Seq<SpecColumnField>,
    k: int,
)
    requires
        0 <= k <= pairs.len(),
        pairs.len() == fields.len(),
        spec_coerce_row_cells(pairs.take(k), fields.take(k)) matches Err(_),
    ensures
        spec_coerce_row_cells(pairs, fields) == spec_coerce_row_cells(
            pairs.take(k),
            fields.take(k),
        ),
    decreases pairs.len() - k,
{
    if k == pairs.len() {
        assert(pairs.take(k) =~= pairs);
        assert(fields.take(k) =~= fields);
    } else {
        assert(pairs.drop_last().take(k) =~= pairs.take(k));
        assert(fields.drop_last().take(k) =~= fields.take(k));
        lemma_coerce_row_cells_prefix_err(pairs.drop_last(), fields.drop_last(), k);
    }
}

/// Coerces one whole decoded row against the columns of the schema,
/// exactly as `spec_coerce_row` says: one cell per column, in order.
pub fn coerce_row(row: &DynamicValue, fields: &Vec<ColumnField>) -> (r: Result<
    Vec<Option<Scalar>>,
    TypeMismatchError,
>)
    ensures
        match r {
            Ok(cells) => spec_coerce_row(row@, view_column_fields(fields@)) == Ok::<
                _,
                TypeMismatchError,
            >(view_cells(cells@)) && cells@.len() == fields@.len(),
            Err(e) => spec_coerce_row(row@, view_column_fields(fields@)) == Err::<
                Seq<Option<SpecScalar>>,
                _,
            >(e),
        },
{
    let pairs = match row {
        DynamicValue::Record(pairs) => pairs,
        _ => {
            return Err(TypeMismatchError);
        },
    };
    let ghost sps = view_dynamic_pairs(pairs@);
    let ghost sfs = view_column_fields(fields@);
    proof {
        assert(row@ == SpecDynamicValue::Record(sps));
        assert(sps.len() == pairs@.len());
        assert(sfs.len() == fields@.len());
    }
    if pairs.len() != fields.len() {
        return Err(TypeMismatchError);
    }
    let mut out: Vec<Option<Scalar>> = Vec::new();
    let mut i: usize = 0;
    assert(sps.take(0) =~= Seq::empty());
    assert(sfs.take(0) =~= Seq::empty());
    assert(view_cells(out@) =~= Seq::empty());
    while i < pairs.len()
        invariant
            0 <= i <= pairs.len(),
            pairs@.len() == fields@.len(),
            row@ == SpecDynamicValue::Record(sps),
            sps == view_dynamic_pairs(pairs@),
            sfs == view_column_fields(fields@),
            sps.len() == pairs@.len(),
            sfs.len() == fields@.len(),
            out@.len() == i,
            spec_coerce_row_cells(sps.take(i as int), sfs.take(i as int)) == Ok::<
                _,
                TypeMismatchError,
            >(view_cells(out@)),
        decreases pairs@.len() - i,
    {
        proof {
            assert(sps.take(i as int + 1).drop_last() =~= sps.take(i as int));
            assert(sfs.take(i as int + 1).drop_last() =~= sfs.take(i as int));
            assert(sps.take(i as int + 1).last() == sps[i as int]);
            assert(sfs.take(i as int + 1).last() == sfs[i as int]);
            assert(sps[i as int] == view_dynamic_pair(pairs@[i as int]));
            assert(sfs[i as int] == view_column_field(fields@[i as int]));
            assert(sps[i as int].1 == view_dynamic_value(pairs@[i as int].1));
        }
        if !(pairs[i].0 == fields[i].name) {
            proof {
                assert(spec_coerce_cell_pair(sps[i as int], sfs[i as int]) == Err::<
                    Option<SpecScalar>,
                    TypeMismatchError,
                >(TypeMismatchError));
                assert(spec_coerce_row_cells(sps.take(i as int + 1), sfs.take(i as int + 1))
                    == Err::<Seq<Option<SpecScalar>>, TypeMismatchError>(TypeMismatchError));
                lemma_coerce_row_cells_prefix_err(sps, sfs, i as int + 1);
            }
            return Err(TypeMismatchError);
        }
        let cell = match coerce(&pairs[i].1, &fields[i]) {
            Ok(cell) => cell,
            Err(e) => {
                proof {
                    assert(spec_coerce_cell_pair(sps[i as int], sfs[i as int]) == Err::<
                        Option<SpecScalar>,
                        TypeMismatchError,
                    >(e));
                    assert(spec_coerce_row_cells(sps.take(i as int + 1), sfs.take(i as int + 1))
                        == Err::<Seq<Option<SpecScalar>>, TypeMismatchError>(e));
                    lemma_coerce_row_cells_prefix_err(sps, sfs, i as int + 1);
                }
                return Err(e);
            },
        };
        let ghost old_out = out@;
        let ghost cell_view = view_opt_scalar(cell);
        out.push(cell);
        proof {
            assert(spec_coerce_cell_pair(sps[i as int], sfs[i as int]) == Ok::<
                Option<SpecScalar>,
                TypeMismatchError,
            >(cell_view));
            assert(view_cells(out@) =~= view_cells(old_out).push(cell_view));
        }
        i = i + 1;
    }
    proof {
        assert(sps.take(pairs@.len() as int) =~= sps);
        assert(sfs.take(fields@.len() as int) =~= sfs);
    }
    Ok(out)
}

/// Coerces one decoded value against a resolved column: an accepted
/// absent value is `Ok(None)`, an accepted present value `Ok(Some(..))`,
/// and any shape mismatch is an error, exactly as `spec_coerce_cell`
/// says.
pub fn coerce(value: &DynamicValue, target: &ColumnField) -> (r: Result<
    Option<Scalar>,
    TypeMismatchError,
>)
    ensures
        cell_result_view(r) == spec_coerce_cell(value@, target@.typ, target@.nullable),
{
    match coerce_value(value, &target.typ, target.nullable) {
        Ok(s) => match s {
            Scalar::Null => Ok(Option::None),
            other => Ok(Option::Some(other)),
        },
        Err(e) => Err(e),
    }
}

} // verus!
