//! Data model: the source schema tree carried by row-oriented data, the
//! columnar schema it resolves to, and the error taxonomy of resolution.
//!
//! Every executable type has a mathematical mirror (`Spec*`) over `Seq`
//! and plain values; contracts throughout the crate are stated over those
//! mirrors.

use vstd::prelude::*;

verus! {

/// Resolution of a time-valued column to a concrete unit.
#[derive(Clone, Copy, Debug, PartialEq, Eq, Structural)]
pub enum TimeUnit {
    Millisecond,
    Microsecond,
}

/// Logical-type annotation that a numeric, bytes or fixed schema node may
/// carry, overriding its default physical mapping.
#[derive(Clone, Copy, Debug, PartialEq, Eq, Structural)]
pub enum LogicalType {
    Date,
    TimeMillis,
    TimeMicros,
    TimestampMillis,
    TimestampMicros,
    LocalTimestampMillis,
    LocalTimestampMicros,
    Decimal(u32, u32),
    Duration,
}

/// A node of the source schema tree accompanying row-oriented data.
#[derive(Debug)]
pub enum SourceSchema {
    Null,
    Boolean,
    Int(Option<LogicalType>),
    Long(Option<LogicalType>),
    Float,
    Double,
    Bytes(Option<LogicalType>),
    Str,
    Array(Box<SourceSchema>),
    Mapping(Box<SourceSchema>),
    Union(Vec<SourceSchema>),
    Record(Vec<SourceField>),
    Enum(Vec<String>),
    Fixed(usize, Option<LogicalType>),
}

/// One named field of a source record schema.
#[derive(Debug)]
pub struct SourceField {
    pub name: String,
    pub doc: Option<String>,
    pub schema: SourceSchema,
}

/// The type of one resolved column.
#[derive(Debug)]
pub enum ColumnType {
    Null,
    Boolean,
    Int32,
    Int64,
    Float32,
    Float64,
    Binary,
    Utf8,
    Date32,
    Time32(TimeUnit),
    Time64(TimeUnit),
    Timestamp(TimeUnit, bool),
    Decimal(u32, u32),
    FixedSizeBinary(usize),
    Interval,
    List(Box<ColumnField>),
    Struct(Vec<ColumnField>),
    Dictionary,
    TaggedUnion(Vec<ColumnField>),
}

/// One column of a columnar schema: a name, a resolved type, whether the
/// column admits nulls, and ordered metadata.
#[derive(Debug)]
pub struct ColumnField {
    pub name: String,
    pub typ: ColumnType,
    pub nullable: bool,
    pub metadata: Vec<(String, String)>,
}

/// An ordered sequence of uniquely named columns.
#[derive(Debug)]
pub struct ColumnarSchema {
    pub fields: Vec<ColumnField>,
}

/// Why a source schema failed to resolve.
#[derive(Debug)]
pub enum SchemaError {
    /// The schema holds a construct the columnar model does not support.
    Unsupported(String),
    /// Two fields of one record share the given name.
    DuplicateField(String),
    /// A logical-type annotation does not fit its physical type or its
    /// parameters are malformed.
    InvalidLogicalType,
}

// ---------------------------------------------------------------------
// Mathematical mirrors.
// ---------------------------------------------------------------------

/// Mirror of [`SourceSchema`] over `Seq`.
#[verifier::ext_equal]
pub enum SpecSourceSchema {
    Null,
    Boolean,
    Int(Option<LogicalType>),
    Long(Option<LogicalType>),
    Float,
    Double,
    Bytes(Option<LogicalType>),
    Str,
    Array(Box<SpecSourceSchema>),
    Mapping(Box<SpecSourceSchema>),
    Union(Seq<SpecSourceSchema>),
    Record(Seq<SpecSourceField>),
    Enum(Seq<Seq<char>>),
    Fixed(usize, Option<LogicalType>),
}

/// Mirror of [`SourceField`].
#[verifier::ext_equal]
pub struct SpecSourceField {
    pub name: Seq<char>,
    pub doc: Option<Seq<char>>,
    pub schema: SpecSourceSchema,
}

/// Mirror of [`ColumnType`].
#[verifier::ext_equal]
pub enum SpecColumnType {
    Null,
    Boolean,
    Int32,
    Int64,
    Float32,
    Float64,
    Binary,
    Utf8,
    Date32,
    Time32(TimeUnit),
    Time64(TimeUnit),
    Timestamp(TimeUnit, bool),
    Decimal(u32, u32),
    FixedSizeBinary(usize),
    Interval,
    List(Box<SpecColumnField>),
    Struct(Seq<SpecColumnField>),
    Dictionary,
    TaggedUnion(Seq<SpecColumnField>),
}

/// Mirror of [`ColumnField`].
#[verifier::ext_equal]
pub struct SpecColumnField {
    pub name: Seq<char>,
    pub typ: SpecColumnType,
    pub nullable: bool,
    pub metadata: Seq<(Seq<char>, Seq<char>)>,
}

/// Mirror of [`ColumnarSchema`].
#[verifier::ext_equal]
pub struct SpecColumnarSchema {
    pub fields: Seq<SpecColumnField>,
}

/// Mirror of [`SchemaError`].
#[verifier::ext_equal]
pub enum SpecSchemaError {
    Unsupported(Seq<char>),
    DuplicateField(Seq<char>),
    InvalidLogicalType,
}

// ---------------------------------------------------------------------
// Views from the executable types to their mirrors.
// ---------------------------------------------------------------------

pub open spec fn view_source_schema(s: SourceSchema) -> SpecSourceSchema
    decreases s,
{
    match s {
        SourceSchema::Null => SpecSourceSchema::Null,
        SourceSchema::Boolean => SpecSourceSchema::Boolean,
        SourceSchema::Int(l) => SpecSourceSchema::Int(l),
        SourceSchema::Long(l) => SpecSourceSchema::Long(l),
        SourceSchema::Float => SpecSourceSchema::Float,
        SourceSchema::Double => SpecSourceSchema::Double,
        SourceSchema::Bytes(l) => SpecSourceSchema::Bytes(l),
        SourceSchema::Str => SpecSourceSchema::Str,
        SourceSchema::Array(item) => SpecSourceSchema::Array(
            Box::new(view_source_schema(*item)),
        ),
        SourceSchema::Mapping(value) => SpecSourceSchema::Mapping(
            Box::new(view_source_schema(*value)),
        ),
        SourceSchema::Union(branches) => SpecSourceSchema::Union(view_source_schemas(branches@)),
        SourceSchema::Record(fields) => SpecSourceSchema::Record(view_source_fields(fields@)),
        SourceSchema::Enum(symbols) => SpecSourceSchema::Enum(
            Seq::new(symbols@.len(), |i: int| symbols@[i]@),
        ),
        SourceSchema::Fixed(size, l) => SpecSourceSchema::Fixed(size, l),
    }
}

pub open spec fn view_source_schemas(v: Seq<SourceSchema>) -> Seq<SpecSourceSchema>
    decreases v,
{
    if v.len() == 0 {
        Seq::empty()
    } else {
        view_source_schemas(v.drop_last()).push(view_source_schema(v.last()))
    }
}

pub open spec fn view_source_fields(v: Seq<SourceField>) -> Seq<SpecSourceField>
    decreases v,
{
    if v.len() == 0 {
        Seq::empty()
    } else {
        view_source_fields(v.drop_last()).push(view_source_field(v.last()))
    }
}

pub open spec fn view_source_field(f: SourceField) -> SpecSourceField
    decreases f,
{
    SpecSourceField { name: f.name@, doc: view_opt_string(f.doc), schema: view_source_schema(f.schema) }
}

pub open spec fn view_opt_string(d: Option<String>) -> Option<Seq<char>> {
    match d {
        Option::None => Option::None,
        Option::Some(s) => Option::Some(s@),
    }
}

impl View for SourceSchema {
    type V = SpecSourceSchema;

    open spec fn view(&self) -> SpecSourceSchema {
        view_source_schema(*self)
    }
}

impl View for SourceField {
    type V = SpecSourceField;

    open spec fn view(&self) -> SpecSourceField {
        view_source_field(*self)
    }
}

pub open spec fn view_column_type(t: ColumnType) -> SpecColumnType
    decreases t,
{
    match t {
        ColumnType::Null => SpecColumnType::Null,
        ColumnType::Boolean => SpecColumnType::Boolean,
        ColumnType::Int32 => SpecColumnType::Int32,
        ColumnType::Int64 => SpecColumnType::Int64,
        ColumnType::Float32 => SpecColumnType::Float32,
        ColumnType::Float64 => SpecColumnType::Float64,
        ColumnType::Binary => SpecColumnType::Binary,
        ColumnType::Utf8 => SpecColumnType::Utf8,
        ColumnType::Date32 => SpecColumnType::Date32,
        ColumnType::Time32(u) => SpecColumnType::Time32(u),
        ColumnType::Time64(u) => SpecColumnType::Time64(u),
        ColumnType::Timestamp(u, z) => SpecColumnType::Timestamp(u, z),
        ColumnType::Decimal(p, s) => SpecColumnType::Decimal(p, s),
        ColumnType::FixedSizeBinary(n) => SpecColumnType::FixedSizeBinary(n),
        ColumnType::Interval => SpecColumnType::Interval,
        ColumnType::List(item) => SpecColumnType::List(Box::new(view_column_field(*item))),
        ColumnType::Struct(fields) => SpecColumnType::Struct(view_column_fields(fields@)),
        ColumnType::Dictionary => SpecColumnType::Dictionary,
        ColumnType::TaggedUnion(branches) => SpecColumnType::TaggedUnion(
            view_column_fields(branches@),
        ),
    }
}

pub open spec fn view_column_fields(v: Seq<ColumnField>) -> Seq<SpecColumnField>
    decreases v,
{
    if v.len() == 0 {
        Seq::empty()
    } else {
        view_column_fields(v.drop_last()).push(view_column_field(v.last()))
    }
}

pub open spec fn view_column_field(f: ColumnField) -> SpecColumnField
    decreases f,
{
    SpecColumnField {
        name: f.name@,
        typ: view_column_type(f.typ),
        nullable: f.nullable,
        metadata: Seq::new(f.metadata@.len(), |i: int| (f.metadata@[i].0@, f.metadata@[i].1@)),
    }
}

impl View for ColumnType {
    type V = SpecColumnType;

    open spec fn view(&self) -> SpecColumnType {
        view_column_type(*self)
    }
}

impl View for ColumnField {
    type V = SpecColumnField;

    open spec fn view(&self) -> SpecColumnField {
        view_column_field(*self)
    }
}

impl View for ColumnarSchema {
    type V = SpecColumnarSchema;

    open spec fn view(&self) -> SpecColumnarSchema {
        SpecColumnarSchema { fields: view_column_fields(self.fields@) }
    }
}

impl View for SchemaError {
    type V = SpecSchemaError;

    open spec fn view(&self) -> SpecSchemaError {
        match *self {
            SchemaError::Unsupported(ref what) => SpecSchemaError::Unsupported(what@),
            SchemaError::DuplicateField(ref name) => SpecSchemaError::DuplicateField(name@),
            SchemaError::InvalidLogicalType => SpecSchemaError::InvalidLogicalType,
        }
    }
}

// ---------------------------------------------------------------------
// The sequence views agree with the element views, index by index.
// ---------------------------------------------------------------------

pub broadcast proof fn lemma_view_source_schemas(v: Seq<SourceSchema>)
    ensures
        (#[trigger] view_source_schemas(v)).len() == v.len(),
        forall|i: int| 0 <= i < v.len() ==> view_source_schemas(v)[i] == view_source_schema(v[i]),
    decreases v,
{
    if v.len() > 0 {
        lemma_view_source_schemas(v.drop_last());
    }
}

pub broadcast proof fn lemma_view_source_fields(v: Seq<SourceField>)
    ensures
        (#[trigger] view_source_fields(v)).len() == v.len(),
        forall|i: int| 0 <= i < v.len() ==> view_source_fields(v)[i] == view_source_field(v[i]),
    decreases v,
{
    if v.len() > 0 {
        lemma_view_source_fields(v.drop_last());
    }
}

pub broadcast proof fn lemma_view_column_fields(v: Seq<ColumnField>)
    ensures
        (#[trigger] view_column_fields(v)).len() == v.len(),
        forall|i: int| 0 <= i < v.len() ==> view_column_fields(v)[i] == view_column_field(v[i]),
    decreases v,
{
    if v.len() > 0 {
        lemma_view_column_fields(v.drop_last());
    }
}

} // verus!
