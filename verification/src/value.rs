//! The decoded-row value model handed in by the row source, and the typed
//! scalars that fill column buffers.
//!
//! Floating-point row values travel through the engine as their IEEE 754
//! bit patterns (`u32` / `u64`); no arithmetic is ever done on them here,
//! so the bits are carried exactly.

use vstd::prelude::*;

verus! {

/// One dynamically typed decoded row value, mirroring the shape of the
/// source schema.
#[derive(Debug)]
pub enum DynamicValue {
    Null,
    Boolean(bool),
    Int(i32),
    Long(i64),
    Float(u32),
    Double(u64),
    Bytes(Vec<u8>),
    Str(String),
    Array(Vec<DynamicValue>),
    Mapping(Vec<(String, DynamicValue)>),
    Union(usize, Box<DynamicValue>),
    Record(Vec<(String, DynamicValue)>),
    Enum(String),
    Fixed(Vec<u8>),
}

/// One typed scalar, ready for a column buffer. `Null` stands for an
/// absent value inside nested data; a whole absent cell is `None` at the
/// coercion surface.
#[derive(Debug)]
pub enum Scalar {
    Null,
    Boolean(bool),
    Int32(i32),
    Int64(i64),
    Float32(u32),
    Float64(u64),
    Binary(Vec<u8>),
    Utf8(String),
    Symbol(String),
    Union(usize, Box<Scalar>),
    ListVal(Vec<Scalar>),
    StructVal(Vec<Scalar>),
}

/// A decoded value whose runtime shape does not match the resolved
/// column type, including an unexpected null in a non-nullable column.
#[derive(Clone, Copy, Debug, PartialEq, Eq, Structural)]
pub struct TypeMismatchError;

// ---------------------------------------------------------------------
// Mathematical mirrors.
// ---------------------------------------------------------------------

/// Mirror of [`DynamicValue`].
#[verifier::ext_equal]
pub enum SpecDynamicValue {
    Null,
    Boolean(bool),
    Int(i32),
    Long(i64),
    Float(u32),
    Double(u64),
    Bytes(Seq<u8>),
    Str(Seq<char>),
    Array(Seq<SpecDynamicValue>),
    Mapping(Seq<(Seq<char>, SpecDynamicValue)>),
    Union(usize, Box<SpecDynamicValue>),
    Record(Seq<(Seq<char>, SpecDynamicValue)>),
    Enum(Seq<char>),
    Fixed(Seq<u8>),
}

/// Mirror of [`Scalar`].
#[verifier::ext_equal]
pub enum SpecScalar {
    Null,
    Boolean(bool),
    Int32(i32),
    Int64(i64),
    Float32(u32),
    Float64(u64),
    Binary(Seq<u8>),
    Utf8(Seq<char>),
    Symbol(Seq<char>),
    Union(usize, Box<SpecScalar>),
    ListVal(Seq<SpecScalar>),
    StructVal(Seq<SpecScalar>),
}

// ---------------------------------------------------------------------
// Views.
// ---------------------------------------------------------------------

pub open spec fn view_dynamic_value(v: DynamicValue) -> SpecDynamicValue
    decreases v,
{
    match v {
        DynamicValue::Null => SpecDynamicValue::Null,
        DynamicValue::Boolean(b) => SpecDynamicValue::Boolean(b),
        DynamicValue::Int(i) => SpecDynamicValue::Int(i),
        DynamicValue::Long(l) => SpecDynamicValue::Long(l),
        DynamicValue::Float(bits) => SpecDynamicValue::Float(bits),
        DynamicValue::Double(bits) => SpecDynamicValue::Double(bits),
        DynamicValue::Bytes(b) => SpecDynamicValue::Bytes(b@),
        DynamicValue::Str(s) => SpecDynamicValue::Str(s@),
        DynamicValue::Array(items) => SpecDynamicValue::Array(view_dynamic_values(items@)),
        DynamicValue::Mapping(pairs) => SpecDynamicValue::Mapping(view_dynamic_pairs(pairs@)),
        DynamicValue::Union(tag, inner) => SpecDynamicValue::Union(
            tag,
            Box::new(view_dynamic_value(*inner)),
        ),
        DynamicValue::Record(pairs) => SpecDynamicValue::Record(view_dynamic_pairs(pairs@)),
        DynamicValue::Enum(sym) => SpecDynamicValue::Enum(sym@),
        DynamicValue::Fixed(b) => SpecDynamicValue::Fixed(b@),
    }
}

pub open spec fn view_dynamic_values(v: Seq<DynamicValue>) -> Seq<SpecDynamicValue>
    decreases v,
{
    if v.len() == 0 {
        Seq::empty()
    } else {
        view_dynamic_values(v.drop_last()).push(view_dynamic_value(v.last()))
    }
}

pub open spec fn view_dynamic_pair(p: (String, DynamicValue)) -> (Seq<char>, SpecDynamicValue)
    decreases p,
{
    (p.0@, view_dynamic_value(p.1))
}

pub open spec fn view_dynamic_pairs(v: Seq<(String, DynamicValue)>) -> Seq<
    (Seq<char>, SpecDynamicValue),
>
    decreases v,
{
    if v.len() == 0 {
        Seq::empty()
    } else {
        view_dynamic_pairs(v.drop_last()).push(view_dynamic_pair(v.last()))
    }
}

impl View for DynamicValue {
    type V = SpecDynamicValue;

    open spec fn view(&self) -> SpecDynamicValue {
        view_dynamic_value(*self)
    }
}

pub open spec fn view_scalar(s: Scalar) -> SpecScalar
    decreases s,
{
    match s {
        Scalar::Null => SpecScalar::Null,
        Scalar::Boolean(b) => SpecScalar::Boolean(b),
        Scalar::Int32(i) => SpecScalar::Int32(i),
        Scalar::Int64(l) => SpecScalar::Int64(l),
        Scalar::Float32(bits) => SpecScalar::Float32(bits),
        Scalar::Float64(bits) => SpecScalar::Float64(bits),
        Scalar::Binary(b) => SpecScalar::Binary(b@),
        Scalar::Utf8(s) => SpecScalar::Utf8(s@),
        Scalar::Symbol(s) => SpecScalar::Symbol(s@),
        Scalar::Union(tag, inner) => SpecScalar::Union(tag, Box::new(view_scalar(*inner))),
        Scalar::ListVal(items) => SpecScalar::ListVal(view_scalars(items@)),
        Scalar::StructVal(items) => SpecScalar::StructVal(view_scalars(items@)),
    }
}

pub open spec fn view_scalars(v: Seq<Scalar>) -> Seq<SpecScalar>
    decreases v,
{
    if v.len() == 0 {
        Seq::empty()
    } else {
        view_scalars(v.drop_last()).push(view_scalar(v.last()))
    }
}

impl View for Scalar {
    type V = SpecScalar;

    open spec fn view(&self) -> SpecScalar {
        view_scalar(*self)
    }
}

/// View of an optional scalar cell.
pub open spec fn view_opt_scalar(s: Option<Scalar>) -> Option<SpecScalar> {
    match s {
        Option::None => Option::None,
        Option::Some(x) => Option::Some(view_scalar(x)),
    }
}

// ---------------------------------------------------------------------
// The sequence views agree with the element views, index by index.
// ---------------------------------------------------------------------

pub broadcast proof fn lemma_view_dynamic_values(v: Seq<DynamicValue>)
    ensures
        (#[trigger] view_dynamic_values(v)).len() == v.len(),
        forall|i: int| 0 <= i < v.len() ==> view_dynamic_values(v)[i] == view_dynamic_value(v[i]),
    decreases v,
{
    if v.len() > 0 {
        lemma_view_dynamic_values(v.drop_last());
    }
}

pub broadcast proof fn lemma_view_dynamic_pairs(v: Seq<(String, DynamicValue)>)
    ensures
        (#[trigger] view_dynamic_pairs(v)).len() == v.len(),
        forall|i: int| 0 <= i < v.len() ==> view_dynamic_pairs(v)[i] == view_dynamic_pair(v[i]),
    decreases v,
{
    if v.len() > 0 {
        lemma_view_dynamic_pairs(v.drop_last());
    }
}

pub broadcast proof fn lemma_view_scalars(v: Seq<Scalar>)
    ensures
        (#[trigger] view_scalars(v)).len() == v.len(),
        forall|i: int| 0 <= i < v.len() ==> view_scalars(v)[i] == view_scalar(v[i]),
    decreases v,
{
    if v.len() > 0 {
        lemma_view_scalars(v.drop_last());
    }
}

} // verus!
