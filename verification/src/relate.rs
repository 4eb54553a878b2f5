//! Relationship inference: every named field whose effective type is not
//! primitive yields one directed edge, composition for owned fields and
//! association for borrowed ones, deduplicated per class and globally.

use vstd::prelude::*;

use crate::model::{
    class_wf, field_wf, get_identifier_from_generic_type, resolve_spec, type_wf, Class, ClassV,
    FieldV, Relationship, RelationshipV,
};
use crate::text::{is_primitive, is_primitive_spec, str_eq};

verus! {

/// The edge one field contributes: none for unnamed fields and for fields
/// whose effective type is primitive; association for borrowed fields;
/// composition otherwise. The reference flag is the field's own, never the
/// resolved parameter's.
pub open spec fn field_rel(cname: Seq<char>, f: FieldV) -> Option<RelationshipV> {
    if f.name is None {
        Option::None
    } else {
        let to = resolve_spec(f.ty);
        if is_primitive_spec(to) {
            Option::None
        } else if f.ty.reference {
            Option::Some(RelationshipV::Association(cname, to))
        } else {
            Option::Some(RelationshipV::Composition(cname, to))
        }
    }
}

/// The set of edges a class yields.
pub open spec fn class_rels(c: ClassV) -> Set<RelationshipV> {
    Set::new(
        |r: RelationshipV|
            exists|i: int|
                0 <= i < c.fields.len() && field_rel(c.name, #[trigger] c.fields[i])
                    == Option::Some(r),
    )
}

/// The views of a sequence of relationships.
pub open spec fn rel_views(s: Seq<Relationship>) -> Seq<RelationshipV> {
    Seq::new(s.len(), |i: int| if 0 <= i < s.len() { s[i]@ } else { arbitrary() })
}

/// No relationship appears twice.
pub open spec fn no_dup_rels(s: Seq<RelationshipV>) -> bool {
    forall|i: int, j: int| 0 <= i < j < s.len() ==> #[trigger] s[i] != #[trigger] s[j]
}

/// Appends a relationship unless an equal one is already present.
pub open spec fn insert_rel_spec(acc: Seq<RelationshipV>, rel: Option<RelationshipV>) -> Seq<
    RelationshipV,
> {
    match rel {
        Option::None => acc,
        Option::Some(r) => if acc.contains(r) {
            acc
        } else {
            acc.push(r)
        },
    }
}

/// The deduplicated relationship sequence of a class's fields, in first
/// occurrence order.
pub open spec fn rels_of_fields(cname: Seq<char>, fs: Seq<FieldV>) -> Seq<RelationshipV>
    decreases fs.len(),
{
    if fs.len() == 0 {
        Seq::<RelationshipV>::empty()
    } else {
        insert_rel_spec(rels_of_fields(cname, fs.drop_last()), field_rel(cname, fs.last()))
    }
}

/// The relationship sequence one class yields.
pub open spec fn class_rel_seq(c: ClassV) -> Seq<RelationshipV> {
    rels_of_fields(c.name, c.fields)
}

/// What `rels_of_fields` holds: no duplicates, and membership is exactly
/// the existence of a field that yields the edge.
pub proof fn lemma_rels_of_fields_props(cname: Seq<char>, fs: Seq<FieldV>)
    ensures
        no_dup_rels(rels_of_fields(cname, fs)),
        forall|rel: RelationshipV|
            #[trigger] rels_of_fields(cname, fs).contains(rel) <==> exists|i: int|
                0 <= i < fs.len() && field_rel(cname, #[trigger] fs[i]) == Option::Some(rel),
    decreases fs.len(),
{
    if fs.len() > 0 {
        lemma_rels_of_fields_props(cname, fs.drop_last());
        let prev = rels_of_fields(cname, fs.drop_last());
        let cur = rels_of_fields(cname, fs);
        let last_rel = field_rel(cname, fs.last());
        assert(fs.drop_last().len() == fs.len() - 1);
        assert forall|i: int| 0 <= i < fs.len() - 1 implies #[trigger] fs.drop_last()[i]
            == fs[i] by {}
        match last_rel {
            Option::None => {
                assert(cur == prev);
                assert forall|rel: RelationshipV| #[trigger]
                    cur.contains(rel) <==> exists|i: int|
                        0 <= i < fs.len() && field_rel(cname, #[trigger] fs[i]) == Option::Some(
                            rel,
                        ) by {
                    if exists|i: int|
                        0 <= i < fs.len() && field_rel(cname, #[trigger] fs[i]) == Option::Some(
                            rel,
                        ) {
                        let i = choose|i: int|
                            0 <= i < fs.len() && field_rel(cname, #[trigger] fs[i])
                                == Option::Some(rel);
                        assert(i < fs.len() - 1);
                        assert(field_rel(cname, fs.drop_last()[i]) == Option::Some(rel));
                    }
                }
            },
            Option::Some(r) => {
                if prev.contains(r) {
                    assert(cur == prev);
                    assert forall|rel: RelationshipV| #[trigger]
                        cur.contains(rel) <==> exists|i: int|
                            0 <= i < fs.len() && field_rel(cname, #[trigger] fs[i])
                                == Option::Some(rel) by {
                        if exists|i: int|
                            0 <= i < fs.len() && field_rel(cname, #[trigger] fs[i])
                                == Option::Some(rel) {
                            let i = choose|i: int|
                                0 <= i < fs.len() && field_rel(cname, #[trigger] fs[i])
                                    == Option::Some(rel);
                            if i < fs.len() - 1 {
                                assert(field_rel(cname, fs.drop_last()[i]) == Option::Some(rel));
                            } else {
                                assert(rel == r);
                            }
                        }
                    }
                } else {
                    assert(cur == prev.push(r));
                    assert forall|i: int, j: int|
                        0 <= i < j < cur.len() implies #[trigger] cur[i] != #[trigger] cur[j] by {
                        if j < prev.len() {
                            assert(prev[i] == cur[i] && prev[j] == cur[j]);
                        } else {
                            assert(cur[j] == r);
                            assert(cur[i] == prev[i]);
                            assert(prev.contains(prev[i]));
                        }
                    }
                    assert forall|rel: RelationshipV| #[trigger]
                        cur.contains(rel) <==> exists|i: int|
                            0 <= i < fs.len() && field_rel(cname, #[trigger] fs[i])
                                == Option::Some(rel) by {
                        if cur.contains(rel) {
                            let k = choose|k: int| 0 <= k < cur.len() && cur[k] == rel;
                            if k < prev.len() {
                                assert(prev[k] == rel);
                                assert(prev.contains(rel));
                                let i = choose|i: int|
                                    0 <= i < fs.drop_last().len() && field_rel(
                                        cname,
                                        #[trigger] fs.drop_last()[i],
                                    ) == Option::Some(rel);
                                assert(field_rel(cname, fs[i]) == Option::Some(rel));
                            } else {
                                assert(rel == r);
                                assert(field_rel(cname, fs[fs.len() - 1]) == Option::Some(rel));
                            }
                        }
                        if exists|i: int|
                            0 <= i < fs.len() && field_rel(cname, #[trigger] fs[i])
                                == Option::Some(rel) {
                            let i = choose|i: int|
                                0 <= i < fs.len() && field_rel(cname, #[trigger] fs[i])
                                    == Option::Some(rel);
                            if i < fs.len() - 1 {
                                assert(field_rel(cname, fs.drop_last()[i]) == Option::Some(rel));
                                assert(prev.contains(rel));
                                let k = choose|k: int| 0 <= k < prev.len() && prev[k] == rel;
                                assert(cur[k] == rel);
                            } else {
                                assert(cur[cur.len() - 1] == rel);
                            }
                        }
                    }
                }
            },
        }
    }
}

/// A copy of a relationship with the same view.
fn clone_rel(r: &Relationship) -> (c: Relationship)
    ensures
        c@ == r@,
{
    match r {
        Relationship::Composition(from, to) => Relationship::Composition(
            from.clone(),
            to.clone(),
        ),
        Relationship::Association(from, to) => Relationship::Association(
            from.clone(),
            to.clone(),
        ),
    }
}

/// Structural equality of two relationships, decided on the views.
fn rel_eq(a: &Relationship, b: &Relationship) -> (r: bool)
    ensures
        r == (a@ == b@),
{
    match (a, b) {
        (Relationship::Composition(f1, t1), Relationship::Composition(f2, t2)) => str_eq(
            f1.as_str(),
            f2.as_str(),
        ) && str_eq(t1.as_str(), t2.as_str()),
        (Relationship::Association(f1, t1), Relationship::Association(f2, t2)) => str_eq(
            f1.as_str(),
            f2.as_str(),
        ) && str_eq(t1.as_str(), t2.as_str()),
        _ => false,
    }
}

/// Whether `x` already occurs in `v`, by view equality.
fn rels_contain(v: &Vec<Relationship>, x: &Relationship) -> (r: bool)
    ensures
        r == rel_views(v@).contains(x@),
{
    let mut i: usize = 0;
    while i < v.len()
        invariant
            0 <= i <= v@.len(),
            forall|j: int| 0 <= j < i ==> rel_views(v@)[j] != x@,
        decreases v@.len() - i,
    {
        if rel_eq(&v[i], x) {
            proof {
                assert(rel_views(v@)[i as int] == x@);
            }
            return true;
        }
        i = i + 1;
    }
    proof {
        assert forall|j: int| 0 <= j < rel_views(v@).len() implies rel_views(v@)[j] != x@ by {}
    }
    false
}

/// Appends `x` unless an equal relationship is already present.
pub fn insert_rel(acc: &mut Vec<Relationship>, x: Relationship)
    ensures
        rel_views(final(acc)@) == insert_rel_spec(rel_views(old(acc)@), Option::Some(x@)),
{
    let dup = rels_contain(acc, &x);
    if !dup {
        let ghost prev = acc@;
        acc.push(x);
        proof {
            assert(rel_views(acc@) =~= rel_views(prev).push(x@));
        }
    }
}

/// Merges a class's relationships into the global accumulator, keeping the
/// global set free of duplicates.
pub fn merge_rels(acc: &mut Vec<Relationship>, add: Vec<Relationship>)
    ensures
        rel_views(final(acc)@) == insert_all_spec(rel_views(old(acc)@), rel_views(add@)),
{
    let ghost addv = rel_views(add@);
    let mut i: usize = 0;
    while i < add.len()
        invariant
            0 <= i <= add@.len(),
            addv.len() == add@.len(),
            forall|j: int| 0 <= j < add@.len() ==> addv[j] == #[trigger] add@[j]@,
            rel_views(acc@) == insert_all_spec(rel_views(old(acc)@), addv.take(i as int)),
        decreases add@.len() - i,
    {
        let x = clone_rel(&add[i]);
        proof {
            assert(x@ == addv[i as int]);
            assert(addv.take(i + 1).drop_last() =~= addv.take(i as int));
            assert(addv.take(i + 1).last() == addv[i as int]);
        }
        insert_rel(acc, x);
        i = i + 1;
    }
    proof {
        assert(addv.take(addv.len() as int) =~= addv);
    }
}

/// Inserting each relationship of `s` into `acc`, in order.
pub open spec fn insert_all_spec(acc: Seq<RelationshipV>, s: Seq<RelationshipV>) -> Seq<
    RelationshipV,
>
    decreases s.len(),
{
    if s.len() == 0 {
        acc
    } else {
        insert_rel_spec(insert_all_spec(acc, s.drop_last()), Option::Some(s.last()))
    }
}

/// Extracts the deduplicated edges of one class, in first occurrence order.
pub fn get_relationships_from_class(class: Class) -> (r: Vec<Relationship>)
    requires
        class_wf(class@),
    ensures
        rel_views(r@) == class_rel_seq(class@),
        no_dup_rels(rel_views(r@)),
        forall|rel: RelationshipV| #[trigger]
            rel_views(r@).contains(rel) <==> class_rels(class@).contains(rel),
{
    let mut out: Vec<Relationship> = Vec::new();
    let mut idx: usize = 0;
    proof {
        assert(rel_views(out@) =~= Seq::<RelationshipV>::empty());
    }
    while idx < class.fields.len()
        invariant
            0 <= idx <= class.fields@.len(),
            class_wf(class@),
            class@.fields.len() == class.fields@.len(),
            rel_views(out@) == rels_of_fields(class@.name, class@.fields.take(idx as int)),
        decreases class.fields@.len() - idx,
    {
        let field = &class.fields[idx];
        proof {
            assert(class@.fields[idx as int] == field@);
            assert(field_wf(class@.fields[idx as int]));
            assert(type_wf(field@.ty));
            assert(class@.fields.take(idx + 1).drop_last() =~= class@.fields.take(idx as int));
            assert(class@.fields.take(idx + 1).last() == class@.fields[idx as int]);
        }
        let ghost frel = field_rel(class@.name, class@.fields[idx as int]);
        match &field.name {
            Option::None => {
                proof {
                    assert(frel is None);
                }
            },
            Option::Some(_) => {
                let to: String = match &field.ty.generics {
                    Option::Some(_) => get_identifier_from_generic_type(&field.ty),
                    Option::None => field.ty.identifier.clone(),
                };
                proof {
                    assert(to@ == resolve_spec(field@.ty));
                }
                if !is_primitive(to.as_str()) {
                    let rel = if field.ty.reference {
                        Relationship::Association(class.name.clone(), to)
                    } else {
                        Relationship::Composition(class.name.clone(), to)
                    };
                    proof {
                        assert(frel == Option::Some(rel@));
                    }
                    insert_rel(&mut out, rel);
                } else {
                    proof {
                        assert(frel is None);
                    }
                }
            },
        }
        idx = idx + 1;
    }
    proof {
        assert(class@.fields.take(class@.fields.len() as int) =~= class@.fields);
        lemma_rels_of_fields_props(class@.name, class@.fields);
        assert forall|rel: RelationshipV| #[trigger]
            rel_views(out@).contains(rel) <==> class_rels(class@).contains(rel) by {
            assert(class_rels(class@).contains(rel) == (exists|i: int|
                0 <= i < class@.fields.len() && field_rel(class@.name, #[trigger] class@.fields[i])
                    == Option::Some(rel)));
        }
    }
    out
}

} // verus!
