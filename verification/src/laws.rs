//! Laws of schema resolution, proved once and for all inputs from the
//! rules in [`crate::translate`].

use vstd::prelude::*;

use crate::schema::{SpecColumnField, SpecColumnType, SpecSchemaError, SpecSourceField, SpecSourceSchema};
use crate::coerce::spec_coerce;
use crate::translate::{
    spec_has_name, spec_resolve, spec_resolve_branches, spec_resolve_field, spec_resolve_fields,
    spec_translate, SpecResolved,
};
use crate::value::{SpecDynamicValue, SpecScalar, TypeMismatchError};

verus! {

/// Each branch of a resolved union contributes one unnamed column, in
/// branch order, carrying exactly that branch's resolved type.
pub proof fn lemma_resolve_branch_at(bs: Seq<SpecSourceSchema>, i: int)
    requires
        spec_resolve_branches(bs) is Ok,
        0 <= i < bs.len(),
    ensures
        spec_resolve(bs[i]) is Ok,
        (spec_resolve_branches(bs)->Ok_0).len() == bs.len(),
        (spec_resolve_branches(bs)->Ok_0)[i] == (SpecColumnField {
            name: Seq::empty(),
            typ: spec_resolve(bs[i])->Ok_0.typ,
            nullable: spec_resolve(bs[i])->Ok_0.nullable,
            metadata: Seq::empty(),
        }),
    decreases bs,
{
    crate::translate::lemma_resolve_branches_len(bs);
    crate::translate::lemma_resolve_branches_len(bs.drop_last());
    if i == bs.len() - 1 {
        assert(bs.last() == bs[i]);
    } else {
        assert(bs.drop_last()[i] == bs[i]);
        lemma_resolve_branch_at(bs.drop_last(), i);
    }
}

/// A union of exactly two branches, one of them `Null`, resolves to the
/// other branch's type with `nullable` set; it fails exactly when that
/// branch fails.
pub proof fn lemma_nullable_union(branches: Seq<SpecSourceSchema>, k: int)
    requires
        branches.len() == 2,
        0 <= k < 2,
        !(branches[k] is Null),
        branches[1 - k] is Null,
    ensures
        spec_resolve(SpecSourceSchema::Union(branches)) matches Ok(r) ==> {
            &&& r.nullable
            &&& (spec_resolve(branches[k]) matches Ok(b) && r.typ == b.typ)
        },
        spec_resolve(SpecSourceSchema::Union(branches)) matches Err(e) ==> spec_resolve(
            branches[k],
        ) == Err::<SpecResolved, SpecSchemaError>(e),
{
    let s1 = branches.drop_last();
    let nothing = Seq::<SpecSourceSchema>::empty();
    assert(s1.drop_last() =~= nothing);
    assert(s1.last() == branches[0]);
    assert(branches.last() == branches[1]);
    reveal_with_fuel(spec_resolve, 3);
    reveal_with_fuel(spec_resolve_branches, 4);
    assert(spec_resolve_branches(nothing) == Ok::<Seq<SpecColumnField>, SpecSchemaError>(
        Seq::empty(),
    ));
    let nullcol = SpecColumnField {
        name: Seq::empty(),
        typ: SpecColumnType::Null,
        nullable: false,
        metadata: Seq::empty(),
    };
    if k == 0 {
        assert(branches[1] is Null);
        assert(spec_resolve(branches[1]) == Ok::<SpecResolved, SpecSchemaError>(
            SpecResolved { typ: SpecColumnType::Null, nullable: false },
        ));
        match spec_resolve(branches[0]) {
            Ok(b) => {
                let col = SpecColumnField {
                    name: Seq::empty(),
                    typ: b.typ,
                    nullable: b.nullable,
                    metadata: Seq::empty(),
                };
                assert(spec_resolve_branches(s1) == Ok::<Seq<SpecColumnField>, SpecSchemaError>(
                    Seq::empty().push(col),
                ));
                assert(spec_resolve_branches(branches) == Ok::<
                    Seq<SpecColumnField>,
                    SpecSchemaError,
                >(Seq::empty().push(col).push(nullcol)));
                assert(Seq::empty().push(col).push(nullcol)[0] == col);
            },
            Err(e) => {
                assert(spec_resolve_branches(s1) == Err::<Seq<SpecColumnField>, SpecSchemaError>(
                    e,
                ));
                assert(spec_resolve_branches(branches) == Err::<
                    Seq<SpecColumnField>,
                    SpecSchemaError,
                >(e));
            },
        }
    } else {
        assert(branches[0] is Null);
        assert(spec_resolve(branches[0]) == Ok::<SpecResolved, SpecSchemaError>(
            SpecResolved { typ: SpecColumnType::Null, nullable: false },
        ));
        assert(spec_resolve_branches(s1) == Ok::<Seq<SpecColumnField>, SpecSchemaError>(
            Seq::empty().push(nullcol),
        ));
        match spec_resolve(branches[1]) {
            Ok(b) => {
                let col = SpecColumnField {
                    name: Seq::empty(),
                    typ: b.typ,
                    nullable: b.nullable,
                    metadata: Seq::empty(),
                };
                assert(spec_resolve_branches(branches) == Ok::<
                    Seq<SpecColumnField>,
                    SpecSchemaError,
                >(Seq::empty().push(nullcol).push(col)));
                assert(Seq::empty().push(nullcol).push(col)[1] == col);
            },
            Err(e) => {
                assert(spec_resolve_branches(branches) == Err::<
                    Seq<SpecColumnField>,
                    SpecSchemaError,
                >(e));
            },
        }
    }
}

/// How many branches of a union are not `Null`.
pub open spec fn spec_non_null_count(bs: Seq<SpecSourceSchema>) -> int
    decreases bs,
{
    if bs.len() == 0 {
        0
    } else {
        spec_non_null_count(bs.drop_last()) + if bs.last() is Null {
            0int
        } else {
            1int
        }
    }
}

/// A union with two or more non-`Null` branches, with or without a
/// `Null` branch, resolves to a tagged union that keeps every branch's
/// resolved type in branch order; it is never collapsed to one branch.
pub proof fn lemma_tagged_union(branches: Seq<SpecSourceSchema>)
    requires
        spec_non_null_count(branches) >= 2,
    ensures
        spec_resolve(SpecSourceSchema::Union(branches)) matches Ok(r) ==> {
            &&& !r.nullable
            &&& r.typ matches SpecColumnType::TaggedUnion(cols)
            &&& spec_resolve_branches(branches) == Ok::<Seq<SpecColumnField>, SpecSchemaError>(
                r.typ->TaggedUnion_0,
            )
            &&& r.typ->TaggedUnion_0.len() == branches.len()
            &&& forall|i: int|
                0 <= i < branches.len() ==> (spec_resolve(branches[i]) matches Ok(b)
                    && (#[trigger] r.typ->TaggedUnion_0[i]).typ == b.typ)
        },
{
    if branches.len() == 2 && ((branches[0] is Null) != (branches[1] is Null)) {
        let s1 = branches.drop_last();
        assert(s1.drop_last() =~= Seq::<SpecSourceSchema>::empty());
        assert(s1.last() == branches[0]);
        assert(branches.last() == branches[1]);
        reveal_with_fuel(spec_non_null_count, 4);
        assert(false);
    }
    match spec_resolve(SpecSourceSchema::Union(branches)) {
        Ok(r) => {
            crate::translate::lemma_resolve_branches_len(branches);
            assert forall|i: int|
                0 <= i < branches.len() implies (spec_resolve(branches[i]) matches Ok(b) && (
            #[trigger] r.typ->TaggedUnion_0[i]).typ == b.typ) by {
                lemma_resolve_branch_at(branches, i);
            }
        },
        Err(_) => {},
    }
}

/// Whether a schema tree holds a `Mapping` node anywhere.
pub open spec fn spec_has_mapping(s: SpecSourceSchema) -> bool
    decreases s,
{
    match s {
        SpecSourceSchema::Mapping(_) => true,
        SpecSourceSchema::Array(item) => spec_has_mapping(*item),
        SpecSourceSchema::Union(bs) => spec_any_branch_mapping(bs),
        SpecSourceSchema::Record(fs) => spec_any_field_mapping(fs),
        _ => false,
    }
}

/// Whether any of these branches holds a `Mapping` node.
pub open spec fn spec_any_branch_mapping(bs: Seq<SpecSourceSchema>) -> bool
    decreases bs,
{
    bs.len() > 0 && (spec_any_branch_mapping(bs.drop_last()) || spec_has_mapping(bs.last()))
}

/// Whether any of these fields holds a `Mapping` node.
pub open spec fn spec_any_field_mapping(fs: Seq<SpecSourceField>) -> bool
    decreases fs,
{
    fs.len() > 0 && (spec_any_field_mapping(fs.drop_last()) || spec_has_mapping(fs.last().schema))
}

/// A map schema node itself resolves to exactly the unsupported-map
/// error.
pub proof fn lemma_mapping_unsupported(value: Box<SpecSourceSchema>)
    ensures
        spec_resolve(SpecSourceSchema::Mapping(value)) == Err::<SpecResolved, SpecSchemaError>(
            SpecSchemaError::Unsupported("map"@),
        ),
{
}

/// A schema holding a `Mapping` node anywhere never resolves.
pub proof fn lemma_mapping_never_resolves(s: SpecSourceSchema)
    ensures
        spec_has_mapping(s) ==> spec_resolve(s) matches Err(_),
    decreases s,
{
    match s {
        SpecSourceSchema::Array(item) => {
            lemma_mapping_never_resolves(*item);
        },
        SpecSourceSchema::Union(bs) => {
            lemma_branches_mapping_never_resolve(bs);
        },
        SpecSourceSchema::Record(fs) => {
            lemma_fields_mapping_never_resolve(fs);
        },
        _ => {},
    }
}

proof fn lemma_branches_mapping_never_resolve(bs: Seq<SpecSourceSchema>)
    ensures
        spec_any_branch_mapping(bs) ==> spec_resolve_branches(bs) matches Err(_),
    decreases bs,
{
    if bs.len() > 0 {
        lemma_branches_mapping_never_resolve(bs.drop_last());
        lemma_mapping_never_resolves(bs.last());
    }
}

proof fn lemma_fields_mapping_never_resolve(fs: Seq<SpecSourceField>)
    ensures
        spec_any_field_mapping(fs) ==> spec_resolve_fields(fs) matches Err(_),
    decreases fs,
{
    if fs.len() > 0 {
        lemma_fields_mapping_never_resolve(fs.drop_last());
        lemma_mapping_never_resolves(fs.last().schema);
        if spec_any_field_mapping(fs) {
            if spec_any_field_mapping(fs.drop_last()) {
                assert(spec_resolve_fields(fs.drop_last()) matches Err(_));
            } else {
                assert(spec_has_mapping(fs.last().schema));
                assert(spec_resolve_field(fs.last()) matches Err(_));
            }
        }
    }
}

/// Translating a schema with a `Mapping` field anywhere always fails.
pub proof fn lemma_mapping_never_translates(s: SpecSourceSchema)
    ensures
        spec_has_mapping(s) ==> spec_translate(s) matches Err(_),
{
    lemma_mapping_never_resolves(s);
    match s {
        SpecSourceSchema::Record(fs) => {
            if spec_has_mapping(s) {
                lemma_fields_mapping_never_resolve(fs);
            }
        },
        _ => {},
    }
}

/// Two fields sharing one name make the record fail.
pub proof fn lemma_duplicate_fields_fail(fs: Seq<SpecSourceField>, i: int, j: int)
    requires
        0 <= i < j < fs.len(),
        fs[i].name == fs[j].name,
    ensures
        spec_resolve_fields(fs) matches Err(_),
    decreases fs,
{
    if j == fs.len() - 1 {
        match spec_resolve_fields(fs.drop_last()) {
            Ok(_) => {
                assert(fs.drop_last()[i].name == fs.last().name);
                assert(spec_has_name(fs.drop_last(), fs.last().name));
            },
            Err(_) => {},
        }
    } else {
        lemma_duplicate_fields_fail(fs.drop_last(), i, j);
    }
}

/// When every field's own schema resolves, the only way a record can
/// fail is a duplicated field name.
pub proof fn lemma_fields_err_is_duplicate(fs: Seq<SpecSourceField>)
    requires
        forall|k: int| 0 <= k < fs.len() ==> #[trigger] spec_resolve_field(fs[k]) matches Ok(_),
    ensures
        spec_resolve_fields(fs) matches Err(e) ==> e is DuplicateField,
    decreases fs,
{
    if fs.len() > 0 {
        assert(forall|k: int|
            0 <= k < fs.drop_last().len() ==> #[trigger] spec_resolve_field(fs.drop_last()[k])
                matches Ok(_));
        lemma_fields_err_is_duplicate(fs.drop_last());
        assert(spec_resolve_field(fs.last()) matches Ok(_));
    }
}

/// Translating a record with two fields sharing one name always fails;
/// when every field's own schema resolves, it fails with exactly a
/// duplicate-field error.
pub proof fn lemma_duplicate_fields_never_translate(fs: Seq<SpecSourceField>, i: int, j: int)
    requires
        0 <= i < j < fs.len(),
        fs[i].name == fs[j].name,
    ensures
        spec_translate(SpecSourceSchema::Record(fs)) matches Err(_),
        (forall|k: int| 0 <= k < fs.len() ==> #[trigger] spec_resolve_field(fs[k]) matches Ok(_))
            ==> (spec_translate(SpecSourceSchema::Record(fs)) matches Err(e)
                && e is DuplicateField),
{
    lemma_duplicate_fields_fail(fs, i, j);
    if forall|k: int| 0 <= k < fs.len() ==> #[trigger] spec_resolve_field(fs[k]) matches Ok(_) {
        lemma_fields_err_is_duplicate(fs);
    }
}

/// A decoded 64-bit integer coerced against a 64-bit integer column
/// yields exactly that value; against a 32-bit integer column it fails,
/// never silently casting.
pub proof fn lemma_exact_width_int64(l: i64)
    ensures
        spec_coerce(SpecDynamicValue::Long(l), SpecColumnType::Int64, false) == Ok::<
            SpecScalar,
            TypeMismatchError,
        >(SpecScalar::Int64(l)),
        spec_coerce(SpecDynamicValue::Long(l), SpecColumnType::Int32, false) == Err::<
            SpecScalar,
            TypeMismatchError,
        >(TypeMismatchError),
{
}

/// The same exactness for a decoded 32-bit integer: it fills only a
/// 32-bit integer column, never a 64-bit one.
pub proof fn lemma_exact_width_int32(i: i32)
    ensures
        spec_coerce(SpecDynamicValue::Int(i), SpecColumnType::Int32, false) == Ok::<
            SpecScalar,
            TypeMismatchError,
        >(SpecScalar::Int32(i)),
        spec_coerce(SpecDynamicValue::Int(i), SpecColumnType::Int64, false) == Err::<
            SpecScalar,
            TypeMismatchError,
        >(TypeMismatchError),
{
}

} // verus!
