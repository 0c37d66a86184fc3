//! Schema resolution: translating a source schema tree into a columnar
//! schema.
//!
//! The rules are stated once, mathematically, by `spec_resolve` and its
//! helpers; the executable translator is proved to return exactly what
//! they say, for every input.

use vstd::prelude::*;

use crate::schema::{
    ColumnField, ColumnType, ColumnarSchema, LogicalType, SchemaError, SourceField, SourceSchema,
    SpecColumnField, SpecColumnType, SpecColumnarSchema, SpecSchemaError, SpecSourceField,
    SpecSourceSchema, TimeUnit, lemma_view_column_fields, lemma_view_source_fields,
    lemma_view_source_schemas, view_column_field, view_column_fields, view_source_field,
    view_source_fields, view_source_schema, view_source_schemas,
};

verus! {

broadcast use lemma_view_source_schemas, lemma_view_source_fields, lemma_view_column_fields;

/// A resolved schema node: the column type it maps to and whether the
/// column admits nulls.
#[derive(Debug)]
pub struct Resolved {
    pub typ: ColumnType,
    pub nullable: bool,
}

/// Mirror of [`Resolved`].
#[verifier::ext_equal]
pub struct SpecResolved {
    pub typ: SpecColumnType,
    pub nullable: bool,
}

impl View for Resolved {
    type V = SpecResolved;

    open spec fn view(&self) -> SpecResolved {
        SpecResolved { typ: self.typ@, nullable: self.nullable }
    }
}

// ---------------------------------------------------------------------
// The resolution rules, stated mathematically.
// ---------------------------------------------------------------------

/// Decimal parameters are well formed: precision in `1 ..= 38`, scale at
/// most the precision.
pub open spec fn spec_valid_decimal(precision: u32, scale: u32) -> bool {
    1 <= precision <= 38 && scale <= precision
}

/// Column type of an `Int` node under an optional logical annotation.
pub open spec fn spec_int_type(l: Option<LogicalType>) -> Result<SpecColumnType, SpecSchemaError> {
    match l {
        Option::None => Ok(SpecColumnType::Int32),
        Option::Some(LogicalType::Date) => Ok(SpecColumnType::Date32),
        Option::Some(LogicalType::TimeMillis) => Ok(SpecColumnType::Time32(TimeUnit::Millisecond)),
        Option::Some(_) => Err(SpecSchemaError::InvalidLogicalType),
    }
}

/// Column type of a `Long` node under an optional logical annotation.
pub open spec fn spec_long_type(l: Option<LogicalType>) -> Result<SpecColumnType, SpecSchemaError> {
    match l {
        Option::None => Ok(SpecColumnType::Int64),
        Option::Some(LogicalType::TimeMicros) => Ok(SpecColumnType::Time64(TimeUnit::Microsecond)),
        Option::Some(LogicalType::TimestampMillis) => Ok(
            SpecColumnType::Timestamp(TimeUnit::Millisecond, true),
        ),
        Option::Some(LogicalType::TimestampMicros) => Ok(
            SpecColumnType::Timestamp(TimeUnit::Microsecond, true),
        ),
        Option::Some(LogicalType::LocalTimestampMillis) => Ok(
            SpecColumnType::Timestamp(TimeUnit::Millisecond, false),
        ),
        Option::Some(LogicalType::LocalTimestampMicros) => Ok(
            SpecColumnType::Timestamp(TimeUnit::Microsecond, false),
        ),
        Option::Some(_) => Err(SpecSchemaError::InvalidLogicalType),
    }
}

/// Column type of a `Bytes` node under an optional logical annotation.
pub open spec fn spec_bytes_type(l: Option<LogicalType>) -> Result<SpecColumnType, SpecSchemaError> {
    match l {
        Option::None => Ok(SpecColumnType::Binary),
        Option::Some(LogicalType::Decimal(p, s)) => if spec_valid_decimal(p, s) {
            Ok(SpecColumnType::Decimal(p, s))
        } else {
            Err(SpecSchemaError::InvalidLogicalType)
        },
        Option::Some(_) => Err(SpecSchemaError::InvalidLogicalType),
    }
}

/// Column type of a `Fixed` node under an optional logical annotation.
pub open spec fn spec_fixed_type(size: usize, l: Option<LogicalType>) -> Result<
    SpecColumnType,
    SpecSchemaError,
> {
    match l {
        Option::None => Ok(SpecColumnType::FixedSizeBinary(size)),
        Option::Some(LogicalType::Decimal(p, s)) => if spec_valid_decimal(p, s) {
            Ok(SpecColumnType::Decimal(p, s))
        } else {
            Err(SpecSchemaError::InvalidLogicalType)
        },
        Option::Some(LogicalType::Duration) => Ok(SpecColumnType::Interval),
        Option::Some(_) => Err(SpecSchemaError::InvalidLogicalType),
    }
}

/// Metadata of a resolved field: its documentation, if any, under the
/// reserved `doc` key.
pub open spec fn spec_doc_metadata(doc: Option<Seq<char>>) -> Seq<(Seq<char>, Seq<char>)> {
    match doc {
        Option::None => Seq::empty(),
        Option::Some(d) => seq![("doc"@, d)],
    }
}

/// Whether some field among `fs` carries `name`.
pub open spec fn spec_has_name(fs: Seq<SpecSourceField>, name: Seq<char>) -> bool {
    exists|j: int| 0 <= j < fs.len() && fs[j].name == name
}

/// Resolves one source schema node to a column type and nullability.
pub open spec fn spec_resolve(s: SpecSourceSchema) -> Result<SpecResolved, SpecSchemaError>
    decreases s,
{
    match s {
        SpecSourceSchema::Null => Ok(SpecResolved { typ: SpecColumnType::Null, nullable: false }),
        SpecSourceSchema::Boolean => Ok(
            SpecResolved { typ: SpecColumnType::Boolean, nullable: false },
        ),
        SpecSourceSchema::Int(l) => match spec_int_type(l) {
            Ok(t) => Ok(SpecResolved { typ: t, nullable: false }),
            Err(e) => Err(e),
        },
        SpecSourceSchema::Long(l) => match spec_long_type(l) {
            Ok(t) => Ok(SpecResolved { typ: t, nullable: false }),
            Err(e) => Err(e),
        },
        SpecSourceSchema::Float => Ok(
            SpecResolved { typ: SpecColumnType::Float32, nullable: false },
        ),
        SpecSourceSchema::Double => Ok(
            SpecResolved { typ: SpecColumnType::Float64, nullable: false },
        ),
        SpecSourceSchema::Bytes(l) => match spec_bytes_type(l) {
            Ok(t) => Ok(SpecResolved { typ: t, nullable: false }),
            Err(e) => Err(e),
        },
        SpecSourceSchema::Str => Ok(SpecResolved { typ: SpecColumnType::Utf8, nullable: false }),
        SpecSourceSchema::Array(item) => match spec_resolve(*item) {
            Ok(r) => Ok(
                SpecResolved {
                    typ: SpecColumnType::List(
                        Box::new(
                            SpecColumnField {
                                name: "item"@,
                                typ: r.typ,
                                nullable: r.nullable,
                                metadata: Seq::empty(),
                            },
                        ),
                    ),
                    nullable: false,
                },
            ),
            Err(e) => Err(e),
        },
        SpecSourceSchema::Mapping(_) => Err(SpecSchemaError::Unsupported("map"@)),
        SpecSourceSchema::Union(branches) => match spec_resolve_branches(branches) {
            Ok(cols) => if branches.len() == 2 && ((branches[0] is Null) != (branches[1] is Null)) {
                let other: int = if branches[0] is Null {
                    1
                } else {
                    0
                };
                Ok(SpecResolved { typ: cols[other].typ, nullable: true })
            } else {
                Ok(SpecResolved { typ: SpecColumnType::TaggedUnion(cols), nullable: false })
            },
            Err(e) => Err(e),
        },
        SpecSourceSchema::Record(fields) => match spec_resolve_fields(fields) {
            Ok(cols) => Ok(SpecResolved { typ: SpecColumnType::Struct(cols), nullable: false }),
            Err(e) => Err(e),
        },
        SpecSourceSchema::Enum(_) => Ok(
            SpecResolved { typ: SpecColumnType::Dictionary, nullable: false },
        ),
        SpecSourceSchema::Fixed(size, l) => match spec_fixed_type(size, l) {
            Ok(t) => Ok(SpecResolved { typ: t, nullable: false }),
            Err(e) => Err(e),
        },
    }
}

/// Resolves every branch of a union, in order, to an unnamed column.
pub open spec fn spec_resolve_branches(bs: Seq<SpecSourceSchema>) -> Result<
    Seq<SpecColumnField>,
    SpecSchemaError,
>
    decreases bs,
{
    if bs.len() == 0 {
        Ok(Seq::empty())
    } else {
        match spec_resolve_branches(bs.drop_last()) {
            Ok(cols) => match spec_resolve(bs.last()) {
                Ok(r) => Ok(
                    cols.push(
                        SpecColumnField {
                            name: Seq::empty(),
                            typ: r.typ,
                            nullable: r.nullable,
                            metadata: Seq::empty(),
                        },
                    ),
                ),
                Err(e) => Err(e),
            },
            Err(e) => Err(e),
        }
    }
}

/// Resolves one named record field.
pub open spec fn spec_resolve_field(f: SpecSourceField) -> Result<SpecColumnField, SpecSchemaError>
    decreases f,
{
    match spec_resolve(f.schema) {
        Ok(r) => Ok(
            SpecColumnField {
                name: f.name,
                typ: r.typ,
                nullable: r.nullable,
                metadata: spec_doc_metadata(f.doc),
            },
        ),
        Err(e) => Err(e),
    }
}

/// Resolves the fields of a record, in order; a name already used by an
/// earlier field is a duplicate, and the first failure wins.
pub open spec fn spec_resolve_fields(fs: Seq<SpecSourceField>) -> Result<
    Seq<SpecColumnField>,
    SpecSchemaError,
>
    decreases fs,
{
    if fs.len() == 0 {
        Ok(Seq::empty())
    } else {
        match spec_resolve_fields(fs.drop_last()) {
            Ok(cols) => if spec_has_name(fs.drop_last(), fs.last().name) {
                Err(SpecSchemaError::DuplicateField(fs.last().name))
            } else {
                match spec_resolve_field(fs.last()) {
                    Ok(c) => Ok(cols.push(c)),
                    Err(e) => Err(e),
                }
            },
            Err(e) => Err(e),
        }
    }
}

/// Translates a whole source schema: the top level must be a record; its
/// fields become the columns.
pub open spec fn spec_translate(s: SpecSourceSchema) -> Result<SpecColumnarSchema, SpecSchemaError> {
    match s {
        SpecSourceSchema::Record(fields) => match spec_resolve_fields(fields) {
            Ok(cols) => Ok(SpecColumnarSchema { fields: cols }),
            Err(e) => Err(e),
        },
        _ => Err(SpecSchemaError::Unsupported("non-record"@)),
    }
}

// ---------------------------------------------------------------------
// Facts about the resolution rules.
// ---------------------------------------------------------------------

/// A union resolves to one column per branch.
pub proof fn lemma_resolve_branches_len(bs: Seq<SpecSourceSchema>)
    ensures
        spec_resolve_branches(bs) matches Ok(cols) ==> cols.len() == bs.len(),
    decreases bs,
{
    if bs.len() > 0 {
        lemma_resolve_branches_len(bs.drop_last());
    }
}

/// Once a prefix of the branches fails, the whole union fails the same
/// way.
proof fn lemma_resolve_branches_prefix_err(bs: Seq<SpecSourceSchema>, k: int)
    requires
        0 <= k <= bs.len(),
        spec_resolve_branches(bs.take(k)) matches Err(_),
    ensures
        spec_resolve_branches(bs) == spec_resolve_branches(bs.take(k)),
    decreases bs.len() - k,
{
    if k == bs.len() {
        assert(bs.take(k) =~= bs);
    } else {
        assert(bs.drop_last().take(k) =~= bs.take(k));
        lemma_resolve_branches_prefix_err(bs.drop_last(), k);
    }
}

/// Once a prefix of the fields fails, the whole record fails the same
/// way.
proof fn lemma_resolve_fields_prefix_err(fs: Seq<SpecSourceField>, k: int)
    requires
        0 <= k <= fs.len(),
        spec_resolve_fields(fs.take(k)) matches Err(_),
    ensures
        spec_resolve_fields(fs) == spec_resolve_fields(fs.take(k)),
    decreases fs.len() - k,
{
    if k == fs.len() {
        assert(fs.take(k) =~= fs);
    } else {
        assert(fs.drop_last().take(k) =~= fs.take(k));
        lemma_resolve_fields_prefix_err(fs.drop_last(), k);
    }
}

// ---------------------------------------------------------------------
// The executable translator.
// ---------------------------------------------------------------------

/// View of a resolution result, for stating contracts.
pub open spec fn resolved_result_view(r: Result<Resolved, SchemaError>) -> Result<
    SpecResolved,
    SpecSchemaError,
> {
    match r {
        Ok(res) => Ok(res@),
        Err(e) => Err(e@),
    }
}

/// View of a branch-list resolution result.
pub open spec fn columns_result_view(r: Result<Vec<ColumnField>, SchemaError>) -> Result<
    Seq<SpecColumnField>,
    SpecSchemaError,
> {
    match r {
        Ok(cols) => Ok(view_column_fields(cols@)),
        Err(e) => Err(e@),
    }
}

/// View of a translation result.
pub open spec fn translate_result_view(r: Result<ColumnarSchema, SchemaError>) -> Result<
    SpecColumnarSchema,
    SpecSchemaError,
> {
    match r {
        Ok(cs) => Ok(cs@),
        Err(e) => Err(e@),
    }
}

/// Column type of an `Int` node.
fn int_column_type(l: Option<LogicalType>) -> (r: Result<ColumnType, SchemaError>)
    ensures
        match r {
            Ok(t) => spec_int_type(l) == Ok::<SpecColumnType, SpecSchemaError>(t@),
            Err(e) => spec_int_type(l) == Err::<SpecColumnType, SpecSchemaError>(e@),
        },
{
    match l {
        Option::None => Ok(ColumnType::Int32),
        Option::Some(LogicalType::Date) => Ok(ColumnType::Date32),
        Option::Some(LogicalType::TimeMillis) => Ok(ColumnType::Time32(TimeUnit::Millisecond)),
        Option::Some(_) => Err(SchemaError::InvalidLogicalType),
    }
}

/// Column type of a `Long` node.
fn long_column_type(l: Option<LogicalType>) -> (r: Result<ColumnType, SchemaError>)
    ensures
        match r {
            Ok(t) => spec_long_type(l) == Ok::<SpecColumnType, SpecSchemaError>(t@),
            Err(e) => spec_long_type(l) == Err::<SpecColumnType, SpecSchemaError>(e@),
        },
{
    match l {
        Option::None => Ok(ColumnType::Int64),
        Option::Some(LogicalType::TimeMicros) => Ok(ColumnType::Time64(TimeUnit::Microsecond)),
        Option::Some(LogicalType::TimestampMillis) => Ok(
            ColumnType::Timestamp(TimeUnit::Millisecond, true),
        ),
        Option::Some(LogicalType::TimestampMicros) => Ok(
            ColumnType::Timestamp(TimeUnit::Microsecond, true),
        ),
        Option::Some(LogicalType::LocalTimestampMillis) => Ok(
            ColumnType::Timestamp(TimeUnit::Millisecond, false),
        ),
        Option::Some(LogicalType::LocalTimestampMicros) => Ok(
            ColumnType::Timestamp(TimeUnit::Microsecond, false),
        ),
        Option::Some(_) => Err(SchemaError::InvalidLogicalType),
    }
}

/// Column type of a `Bytes` node.
fn bytes_column_type(l: Option<LogicalType>) -> (r: Result<ColumnType, SchemaError>)
    ensures
        match r {
            Ok(t) => spec_bytes_type(l) == Ok::<SpecColumnType, SpecSchemaError>(t@),
            Err(e) => spec_bytes_type(l) == Err::<SpecColumnType, SpecSchemaError>(e@),
        },
{
    match l {
        Option::None => Ok(ColumnType::Binary),
        Option::Some(LogicalType::Decimal(p, s)) => if 1 <= p && p <= 38 && s <= p {
            Ok(ColumnType::Decimal(p, s))
        } else {
            Err(SchemaError::InvalidLogicalType)
        },
        Option::Some(_) => Err(SchemaError::InvalidLogicalType),
    }
}

/// Column type of a `Fixed` node.
fn fixed_column_type(size: usize, l: Option<LogicalType>) -> (r: Result<ColumnType, SchemaError>)
    ensures
        match r {
            Ok(t) => spec_fixed_type(size, l) == Ok::<SpecColumnType, SpecSchemaError>(t@),
            Err(e) => spec_fixed_type(size, l) == Err::<SpecColumnType, SpecSchemaError>(e@),
        },
{
    match l {
        Option::None => Ok(ColumnType::FixedSizeBinary(size)),
        Option::Some(LogicalType::Decimal(p, s)) => if 1 <= p && p <= 38 && s <= p {
            Ok(ColumnType::Decimal(p, s))
        } else {
            Err(SchemaError::InvalidLogicalType)
        },
        Option::Some(LogicalType::Duration) => Ok(ColumnType::Interval),
        Option::Some(_) => Err(SchemaError::InvalidLogicalType),
    }
}

/// Whether this node is the `Null` schema.
fn is_null_schema(s: &SourceSchema) -> (r: bool)
    ensures
        r == (s@ is Null),
{
    match s {
        SourceSchema::Null => true,
        _ => false,
    }
}

impl SourceSchema {
    /// Resolves this schema node to a column type and nullability,
    /// exactly as `spec_resolve` says.
    pub fn resolve(&self) -> (r: Result<Resolved, SchemaError>)
        ensures
            resolved_result_view(r) == spec_resolve(self@),
        decreases *self,
    {
        match self {
            SourceSchema::Null => Ok(Resolved { typ: ColumnType::Null, nullable: false }),
            SourceSchema::Boolean => Ok(Resolved { typ: ColumnType::Boolean, nullable: false }),
            SourceSchema::Int(l) => match int_column_type(*l) {
                Ok(t) => Ok(Resolved { typ: t, nullable: false }),
                Err(e) => Err(e),
            },
            SourceSchema::Long(l) => match long_column_type(*l) {
                Ok(t) => Ok(Resolved { typ: t, nullable: false }),
                Err(e) => Err(e),
            },
            SourceSchema::Float => Ok(Resolved { typ: ColumnType::Float32, nullable: false }),
            SourceSchema::Double => Ok(Resolved { typ: ColumnType::Float64, nullable: false }),
            SourceSchema::Bytes(l) => match bytes_column_type(*l) {
                Ok(t) => Ok(Resolved { typ: t, nullable: false }),
                Err(e) => Err(e),
            },
            SourceSchema::Str => Ok(Resolved { typ: ColumnType::Utf8, nullable: false }),
            SourceSchema::Array(item) => match item.resolve() {
                Ok(r) => {
                    let item_field = ColumnField {
                        name: "item".to_owned(),
                        typ: r.typ,
                        nullable: r.nullable,
                        metadata: Vec::new(),
                    };
                    proof {
                        assert(view_column_field(item_field) =~~= SpecColumnField {
                            name: "item"@,
                            typ: r@.typ,
                            nullable: r@.nullable,
                            metadata: Seq::empty(),
                        });
                    }
                    Ok(Resolved { typ: ColumnType::List(Box::new(item_field)), nullable: false })
                },
                Err(e) => Err(e),
            },
            SourceSchema::Mapping(_) => Err(SchemaError::Unsupported("map".to_owned())),
            SourceSchema::Union(branches) => match resolve_branches(branches) {
                Ok(mut cols) => {
                    proof {
                        lemma_resolve_branches_len(view_source_schemas(branches@));
                    }
                    if branches.len() == 2 && (is_null_schema(&branches[0]) != is_null_schema(
                        &branches[1],
                    )) {
                        let other: usize = if is_null_schema(&branches[0]) {
                            1
                        } else {
                            0
                        };
                        let picked = cols.remove(other);
                        Ok(Resolved { typ: picked.typ, nullable: true })
                    } else {
                        Ok(Resolved { typ: ColumnType::TaggedUnion(cols), nullable: false })
                    }
                },
                Err(e) => Err(e),
            },
            SourceSchema::Record(fields) => match resolve_fields(fields) {
                Ok(cols) => Ok(Resolved { typ: ColumnType::Struct(cols), nullable: false }),
                Err(e) => Err(e),
            },
            SourceSchema::Enum(_) => Ok(Resolved { typ: ColumnType::Dictionary, nullable: false }),
            SourceSchema::Fixed(size, l) => match fixed_column_type(*size, *l) {
                Ok(t) => Ok(Resolved { typ: t, nullable: false }),
                Err(e) => Err(e),
            },
        }
    }
}

/// Resolves every branch of a union, in order.
fn resolve_branches(branches: &Vec<SourceSchema>) -> (r: Result<Vec<ColumnField>, SchemaError>)
    ensures
        columns_result_view(r) == spec_resolve_branches(view_source_schemas(branches@)),
    decreases *branches,
{
    let ghost sbs = view_source_schemas(branches@);
    let mut cols: Vec<ColumnField> = Vec::new();
    let mut i: usize = 0;
    assert(sbs.take(0) =~= Seq::empty());
    while i < branches.len()
        invariant
            0 <= i <= branches.len(),
            sbs == view_source_schemas(branches@),
            sbs.len() == branches@.len(),
            cols@.len() == i,
            spec_resolve_branches(sbs.take(i as int)) == Ok::<_, SpecSchemaError>(
                view_column_fields(cols@),
            ),
        decreases branches@.len() - i,
    {
        let res = match branches[i].resolve() {
            Ok(r) => r,
            Err(e) => {
                proof {
                    assert(sbs.take(i as int + 1).drop_last() =~= sbs.take(i as int));
                    assert(sbs.take(i as int + 1).last() == sbs[i as int]);
                    lemma_resolve_branches_prefix_err(sbs, i as int + 1);
                }
                return Err(e);
            },
        };
        let ghost old_cols = cols@;
        cols.push(
            ColumnField {
                name: String::new(),
                typ: res.typ,
                nullable: res.nullable,
                metadata: Vec::new(),
            },
        );
        proof {
            assert(sbs.take(i as int + 1).drop_last() =~= sbs.take(i as int));
            assert(sbs.take(i as int + 1).last() == sbs[i as int]);
            assert(view_column_field(cols@.last()) =~~= SpecColumnField {
                name: Seq::empty(),
                typ: res@.typ,
                nullable: res@.nullable,
                metadata: Seq::empty(),
            });
            assert(view_column_fields(cols@) =~~= view_column_fields(old_cols).push(
                view_column_field(cols@.last()),
            ));
        }
        i = i + 1;
    }
    proof {
        assert(sbs.take(branches@.len() as int) =~= sbs);
    }
    Ok(cols)
}

/// Resolves the fields of a record, in order, rejecting duplicates.
fn resolve_fields(fields: &Vec<SourceField>) -> (r: Result<Vec<ColumnField>, SchemaError>)
    ensures
        columns_result_view(r) == spec_resolve_fields(view_source_fields(fields@)),
    decreases *fields,
{
    let ghost sfs = view_source_fields(fields@);
    let mut cols: Vec<ColumnField> = Vec::new();
    let mut i: usize = 0;
    assert(sfs.take(0) =~= Seq::empty());
    while i < fields.len()
        invariant
            0 <= i <= fields.len(),
            sfs == view_source_fields(fields@),
            sfs.len() == fields@.len(),
            cols@.len() == i,
            spec_resolve_fields(sfs.take(i as int)) == Ok::<_, SpecSchemaError>(
                view_column_fields(cols@),
            ),
        decreases fields@.len() - i,
    {
        proof {
            assert(sfs.take(i as int + 1).drop_last() =~= sfs.take(i as int));
            assert(sfs.take(i as int + 1).last() == sfs[i as int]);
        }
        if has_field_named(fields, i) {
            proof {
                lemma_resolve_fields_prefix_err(sfs, i as int + 1);
            }
            return Err(SchemaError::DuplicateField(fields[i].name.clone()));
        }
        let res = match fields[i].schema.resolve() {
            Ok(r) => r,
            Err(e) => {
                proof {
                    assert(sfs[i as int] == view_source_field(fields@[i as int]));
                    assert(sfs[i as int].schema == view_source_schema(fields@[i as int].schema));
                    assert(spec_resolve(sfs[i as int].schema) == Err::<SpecResolved,
                        SpecSchemaError,
                    >(e@));
                    assert(spec_resolve_field(sfs[i as int]) == Err::<SpecColumnField,
                        SpecSchemaError,
                    >(e@));
                    assert(spec_resolve_fields(sfs.take(i as int + 1)) == Err::<
                        Seq<SpecColumnField>,
                        SpecSchemaError,
                    >(e@));
                    lemma_resolve_fields_prefix_err(sfs, i as int + 1);
                }
                return Err(e);
            },
        };
        let ghost old_cols = cols@;
        let mut metadata: Vec<(String, String)> = Vec::new();
        match &fields[i].doc {
            Option::Some(d) => {
                metadata.push(("doc".to_owned(), d.clone()));
                proof {
                    assert(Seq::new(metadata@.len(), |k: int| (metadata@[k].0@, metadata@[k].1@))
                        =~= spec_doc_metadata(sfs[i as int].doc));
                }
            },
            Option::None => {
                proof {
                    assert(Seq::new(metadata@.len(), |k: int| (metadata@[k].0@, metadata@[k].1@))
                        =~= spec_doc_metadata(sfs[i as int].doc));
                }
            },
        }
        cols.push(
            ColumnField {
                name: fields[i].name.clone(),
                typ: res.typ,
                nullable: res.nullable,
                metadata,
            },
        );
        proof {
            assert(view_column_field(cols@.last()) =~~= SpecColumnField {
                name: sfs[i as int].name,
                typ: res@.typ,
                nullable: res@.nullable,
                metadata: spec_doc_metadata(sfs[i as int].doc),
            });
            assert(view_column_fields(cols@) =~~= view_column_fields(old_cols).push(
                view_column_field(cols@.last()),
            ));
        }
        i = i + 1;
    }
    proof {
        assert(sfs.take(fields@.len() as int) =~= sfs);
    }
    Ok(cols)
}

/// Whether some field before `i` carries the same name as field `i`.
fn has_field_named(fields: &Vec<SourceField>, i: usize) -> (r: bool)
    requires
        i < fields@.len(),
    ensures
        r == spec_has_name(
            view_source_fields(fields@).take(i as int),
            view_source_fields(fields@)[i as int].name,
        ),
{
    let ghost sfs = view_source_fields(fields@);
    let mut j: usize = 0;
    while j < i
        invariant
            0 <= j <= i < fields@.len(),
            sfs == view_source_fields(fields@),
            sfs.len() == fields@.len(),
            !spec_has_name(sfs.take(j as int), sfs[i as int].name),
        decreases i - j,
    {
        if fields[j].name == fields[i].name {
            proof {
                assert(sfs.take(i as int)[j as int].name == sfs[i as int].name);
            }
            return true;
        }
        proof {
            assert forall|k: int| 0 <= k < j as int + 1 implies #[trigger] sfs.take(
                j as int + 1,
            )[k].name != sfs[i as int].name by {
                if k < j as int {
                    assert(sfs.take(j as int)[k].name != sfs[i as int].name);
                }
            }
        }
        j = j + 1;
    }
    proof {
        assert(sfs.take(j as int) =~= sfs.take(i as int));
    }
    false
}

/// Translates a source schema into a columnar schema, exactly as
/// `spec_translate` says: the top level must be a record, whose fields
/// become the columns in declaration order; any unsupported construct,
/// duplicated field name or malformed logical type fails the whole
/// translation.
pub fn translate(source: &SourceSchema) -> (r: Result<ColumnarSchema, SchemaError>)
    ensures
        translate_result_view(r) == spec_translate(source@),
{
    match source {
        SourceSchema::Record(fields) => match resolve_fields(fields) {
            Ok(cols) => Ok(ColumnarSchema { fields: cols }),
            Err(e) => Err(e),
        },
        _ => Err(SchemaError::Unsupported("non-record".to_owned())),
    }
}

} // verus!
