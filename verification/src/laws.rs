//! The guarantees the inference engine gives, stated and proved once.

use vstd::prelude::*;

use crate::model::{ClassV, FieldV, TypeModelV};
use crate::relate::{class_rel_seq, field_rel, insert_all_spec, lemma_rels_of_fields_props,
    no_dup_rels};
use crate::text::is_primitive_spec;
use crate::{convert_result, rels_of_items};

verus! {

/// Law: conversion is deterministic. Equal inputs yield equal outcomes,
/// diagram text and errors alike.
pub proof fn lemma_conversion_deterministic(a: Seq<char>, b: Seq<char>)
    requires
        a == b,
    ensures
        convert_result(a) == convert_result(b),
{
}

/// Law: primitive exclusion. A field whose effective resolved type is in
/// the fixed primitive set yields no relationship, whatever its reference
/// flag or name.
pub proof fn lemma_primitive_exclusion(cname: Seq<char>, f: FieldV)
    requires
        is_primitive_spec(crate::model::resolve_spec(f.ty)),
    ensures
        field_rel(cname, f) is None,
{
}

/// Law: generic transparency. A field of a single-parameter generic
/// container wrapping a type yields the same relationship as a bare field
/// of that type, with the reference flag taken from the field itself.
pub proof fn lemma_generic_transparency(
    cname: Seq<char>,
    name: Option<Seq<char>>,
    container: Seq<char>,
    inner: TypeModelV,
    reference: bool,
)
    ensures
        ({
            let wrapped = FieldV {
                name: name,
                ty: TypeModelV {
                    identifier: container,
                    generics: Option::Some(seq![inner]),
                    reference: reference,
                },
            };
            let bare = FieldV {
                name: name,
                ty: TypeModelV {
                    identifier: inner.identifier,
                    generics: inner.generics,
                    reference: reference,
                },
            };
            field_rel(cname, wrapped) == field_rel(cname, bare)
        }),
{
    let wrapped_ty = TypeModelV {
        identifier: container,
        generics: Option::Some(seq![inner]),
        reference: reference,
    };
    let bare_ty = TypeModelV {
        identifier: inner.identifier,
        generics: inner.generics,
        reference: reference,
    };
    assert(seq![inner][0] == inner);
    assert(crate::model::resolve_spec(wrapped_ty) == crate::model::resolve_spec(inner));
    assert(crate::model::resolve_spec(bare_ty) == crate::model::resolve_spec(inner));
}

/// Law: deduplication within a class. Whenever two fields yield the same
/// edge, the class's relationship sequence still lists each edge once.
pub proof fn lemma_deduplication(c: ClassV, i: int, j: int)
    requires
        0 <= i < c.fields.len(),
        0 <= j < c.fields.len(),
        field_rel(c.name, c.fields[i]) == field_rel(c.name, c.fields[j]),
        field_rel(c.name, c.fields[i]) is Some,
    ensures
        class_rel_seq(c).contains(field_rel(c.name, c.fields[i])->0),
        no_dup_rels(class_rel_seq(c)),
{
    lemma_rels_of_fields_props(c.name, c.fields);
}

/// Law: global deduplication. The relationship sequence of a whole
/// declaration list never lists an edge twice, across classes and fields.
pub proof fn lemma_global_deduplication(items: Seq<crate::raw::RawItemV>)
    ensures
        no_dup_rels(rels_of_items(items)),
    decreases items.len(),
{
    if items.len() > 0 {
        lemma_global_deduplication(items.drop_last());
        match items.last() {
            crate::raw::RawItemV::Struct { name, fields } => {
                lemma_insert_all_no_dup(
                    rels_of_items(items.drop_last()),
                    class_rel_seq(crate::translate::class_of_struct(name, fields)),
                );
            },
            _ => {},
        }
    }
}

/// Inserting with the duplicate check keeps a sequence free of duplicates.
pub proof fn lemma_insert_all_no_dup(
    acc: Seq<crate::model::RelationshipV>,
    s: Seq<crate::model::RelationshipV>,
)
    requires
        no_dup_rels(acc),
    ensures
        no_dup_rels(insert_all_spec(acc, s)),
    decreases s.len(),
{
    if s.len() > 0 {
        lemma_insert_all_no_dup(acc, s.drop_last());
        let prev = insert_all_spec(acc, s.drop_last());
        let r = s.last();
        if !prev.contains(r) {
            let cur = prev.push(r);
            assert forall|x: int, y: int| 0 <= x < y < cur.len() implies #[trigger] cur[x]
                != #[trigger] cur[y] by {
                if y < prev.len() {
                    assert(prev[x] == cur[x] && prev[y] == cur[y]);
                } else {
                    assert(cur[y] == r);
                    assert(cur[x] == prev[x]);
                    assert(prev.contains(prev[x]));
                }
            }
        }
    }
}

/// Law: unnamed-field exclusion. A field without a name yields no
/// relationship, whatever its type.
pub proof fn lemma_unnamed_exclusion(cname: Seq<char>, ty: TypeModelV)
    ensures
        field_rel(cname, FieldV { name: Option::None, ty: ty }) is None,
{
}

} // verus!

