//! Deterministic rendering of the collected classes, enumerations and
//! relationships into Mermaid class-diagram text.

use vstd::prelude::*;
use vstd::string::StringExecFns;

use crate::model::{Class, ClassV, EnumModel, EnumModelV, Field, FieldV, Relationship,
    RelationshipV, TypeModel, TypeModelV};
use crate::relate::rel_views;
use crate::text::{lex_leq_fn, sort_strings, str_views};

verus! {

/// The text of one type: a leading `&` for borrows, the identifier, and the
/// generic parameters between tildes, as Mermaid writes them.
pub open spec fn render_type(t: TypeModelV) -> Seq<char>
    decreases t,
{
    (if t.reference {
        "&"@
    } else {
        Seq::<char>::empty()
    }) + t.identifier + (match t.generics {
        Option::Some(gs) => "~"@ + render_args(gs) + "~"@,
        Option::None => Seq::<char>::empty(),
    })
}

/// The comma-separated generic parameter list.
pub open spec fn render_args(gs: Seq<TypeModelV>) -> Seq<char>
    decreases gs,
{
    if gs.len() == 0 {
        Seq::<char>::empty()
    } else if gs.len() == 1 {
        render_type(gs[0])
    } else {
        render_args(gs.drop_last()) + ", "@ + render_type(gs.last())
    }
}

/// One field line: visibility marker, the type, and the name when there is
/// one.
pub open spec fn render_field(f: FieldV) -> Seq<char> {
    "    +"@ + render_type(f.ty) + (match f.name {
        Option::Some(n) => " "@ + n,
        Option::None => Seq::<char>::empty(),
    })
}

pub open spec fn render_fields(fs: Seq<FieldV>) -> Seq<char>
    decreases fs.len(),
{
    if fs.len() == 0 {
        Seq::<char>::empty()
    } else {
        render_fields(fs.drop_last()) + render_field(fs.last()) + "\n"@
    }
}

/// One class block.
pub open spec fn render_class(c: ClassV) -> Seq<char> {
    "class "@ + c.name + " {\n"@ + render_fields(c.fields) + "}"@
}

pub open spec fn render_variants(vs: Seq<Seq<char>>) -> Seq<char>
    decreases vs.len(),
{
    if vs.len() == 0 {
        Seq::<char>::empty()
    } else {
        render_variants(vs.drop_last()) + "    "@ + vs.last() + "\n"@
    }
}

/// One enumeration block, marked with the Mermaid enumeration stereotype.
pub open spec fn render_enum(e: EnumModelV) -> Seq<char> {
    "class "@ + e.name + " {\n    <<enumeration>>\n"@ + render_variants(e.variants) + "}"@
}

/// One relationship line: `*--` marks composition, `-->` association.
pub open spec fn render_rel(r: RelationshipV) -> Seq<char> {
    match r {
        RelationshipV::Composition(from, to) => from + " *-- "@ + to,
        RelationshipV::Association(from, to) => from + " --> "@ + to,
    }
}

/// Lines joined by single newlines, with no trailing newline.
pub open spec fn join_lines(s: Seq<Seq<char>>) -> Seq<char>
    decreases s.len(),
{
    if s.len() == 0 {
        Seq::<char>::empty()
    } else if s.len() == 1 {
        s[0]
    } else {
        join_lines(s.drop_last()) + "\n"@ + s.last()
    }
}

pub open spec fn class_lines(cs: Seq<ClassV>) -> Seq<Seq<char>> {
    Seq::new(cs.len(), |i: int| if 0 <= i < cs.len() { render_class(cs[i]) } else { arbitrary() })
}

pub open spec fn enum_lines(es: Seq<EnumModelV>) -> Seq<Seq<char>> {
    Seq::new(es.len(), |i: int| if 0 <= i < es.len() { render_enum(es[i]) } else { arbitrary() })
}

pub open spec fn rel_lines(rs: Seq<RelationshipV>) -> Seq<Seq<char>> {
    Seq::new(rs.len(), |i: int| if 0 <= i < rs.len() { render_rel(rs[i]) } else { arbitrary() })
}

/// The whole diagram: a fixed fenced preamble, the class block, the
/// enumeration block, and the relationship block sorted by rendered text.
pub open spec fn diagram_text(cs: Seq<ClassV>, es: Seq<EnumModelV>, rs: Seq<RelationshipV>) -> Seq<
    char,
> {
    "```mermaid\nclassDiagram\ndirection LR\n"@ + join_lines(class_lines(cs)) + "\n"@ + join_lines(
        enum_lines(es),
    ) + "\n"@ + join_lines(rel_lines(rs).sort_by(lex_leq_fn())) + "\n```"@
}

/// Renders one type.
#[verifier::loop_isolation(false)]
pub fn render_type_str(t: &TypeModel) -> (r: String)
    ensures
        r@ == render_type(t@),
    decreases *t,
{
    let mut s = String::new();
    if t.reference {
        s.append("&");
    }
    s.append(t.identifier.as_str());
    match &t.generics {
        Option::Some(gs) => {
            s.append("~");
            let ghost gv = t@.generics->0;
            proof {
                assert(gv.len() == gs@.len());
            }
            let mut i: usize = 0;
            while i < gs.len()
                invariant
                    0 <= i <= gs@.len(),
                    gv.len() == gs@.len(),
                    forall|j: int| 0 <= j < gs@.len() ==> gv[j] == #[trigger] gs@[j]@,
                    s@ == (if t@.reference {
                        "&"@
                    } else {
                        Seq::<char>::empty()
                    }) + t@.identifier + "~"@ + render_args(gv.take(i as int)),
                decreases gs@.len() - i,
            {
                if i > 0 {
                    s.append(", ");
                }
                let part = render_type_str(&gs[i]);
                s.append(part.as_str());
                proof {
                    assert(gv.take(i + 1).drop_last() =~= gv.take(i as int));
                    assert(gv.take(i + 1).last() == gv[i as int]);
                    if i == 0 {
                        assert(render_args(gv.take(1)) == render_type(gv[0]));
                    }
                }
                i = i + 1;
            }
            s.append("~");
            proof {
                assert(gv.take(gv.len() as int) =~= gv);
            }
        },
        Option::None => {},
    }
    s
}

/// Renders one field line.
pub fn render_field_str(f: &Field) -> (r: String)
    ensures
        r@ == render_field(f@),
{
    let mut s = String::from_str("    +");
    let ty = render_type_str(&f.ty);
    s.append(ty.as_str());
    match &f.name {
        Option::Some(n) => {
            s.append(" ");
            s.append(n.as_str());
        },
        Option::None => {},
    }
    s
}

/// Renders one class block.
pub fn render_class_str(c: &Class) -> (r: String)
    ensures
        r@ == render_class(c@),
{
    let mut s = String::from_str("class ");
    s.append(c.name.as_str());
    s.append(" {\n");
    let ghost fv = c@.fields;
    let mut i: usize = 0;
    while i < c.fields.len()
        invariant
            0 <= i <= c.fields@.len(),
            fv.len() == c.fields@.len(),
            forall|j: int| 0 <= j < c.fields@.len() ==> fv[j] == #[trigger] c.fields@[j]@,
            s@ == "class "@ + c@.name + " {\n"@ + render_fields(fv.take(i as int)),
        decreases c.fields@.len() - i,
    {
        let line = render_field_str(&c.fields[i]);
        s.append(line.as_str());
        s.append("\n");
        proof {
            assert(fv.take(i + 1).drop_last() =~= fv.take(i as int));
            assert(fv.take(i + 1).last() == fv[i as int]);
        }
        i = i + 1;
    }
    s.append("}");
    proof {
        assert(fv.take(fv.len() as int) =~= fv);
    }
    s
}

/// Renders one enumeration block.
pub fn render_enum_str(e: &EnumModel) -> (r: String)
    ensures
        r@ == render_enum(e@),
{
    let mut s = String::from_str("class ");
    s.append(e.name.as_str());
    s.append(" {\n    <<enumeration>>\n");
    let ghost vv = e@.variants;
    let mut i: usize = 0;
    while i < e.variants.len()
        invariant
            0 <= i <= e.variants@.len(),
            vv.len() == e.variants@.len(),
            forall|j: int| 0 <= j < e.variants@.len() ==> vv[j] == #[trigger] e.variants@[j]@,
            s@ == "class "@ + e@.name + " {\n    <<enumeration>>\n"@ + render_variants(
                vv.take(i as int),
            ),
        decreases e.variants@.len() - i,
    {
        s.append("    ");
        s.append(e.variants[i].as_str());
        s.append("\n");
        proof {
            assert(vv.take(i + 1).drop_last() =~= vv.take(i as int));
            assert(vv.take(i + 1).last() == vv[i as int]);
        }
        i = i + 1;
    }
    s.append("}");
    proof {
        assert(vv.take(vv.len() as int) =~= vv);
    }
    s
}

/// Renders one relationship line.
pub fn render_rel_str(r: &Relationship) -> (res: String)
    ensures
        res@ == render_rel(r@),
{
    match r {
        Relationship::Composition(from, to) => {
            let mut s = String::from_str(from.as_str());
            s.append(" *-- ");
            s.append(to.as_str());
            s
        },
        Relationship::Association(from, to) => {
            let mut s = String::from_str(from.as_str());
            s.append(" --> ");
            s.append(to.as_str());
            s
        },
    }
}

/// Joins already-rendered lines with newlines.
fn join_string_lines(lines: &Vec<String>) -> (r: String)
    ensures
        r@ == join_lines(str_views(lines@)),
{
    let mut s = String::new();
    let ghost lv = str_views(lines@);
    let mut i: usize = 0;
    while i < lines.len()
        invariant
            0 <= i <= lines@.len(),
            lv == str_views(lines@),
            lv.len() == lines@.len(),
            s@ == join_lines(lv.take(i as int)),
        decreases lines@.len() - i,
    {
        if i > 0 {
            s.append("\n");
        }
        s.append(lines[i].as_str());
        proof {
            assert(lv.take(i + 1).drop_last() =~= lv.take(i as int));
            assert(lv.take(i + 1).last() == lv[i as int]);
            assert(lv[i as int] == lines@[i as int]@);
            if i == 0 {
                assert(join_lines(lv.take(1)) == lv[0]);
            }
        }
        i = i + 1;
    }
    proof {
        assert(lv.take(lv.len() as int) =~= lv);
    }
    s
}

/// Renders the three blocks and assembles the diagram text.
pub fn render_diagram(
    classes: &Vec<Class>,
    enums: &Vec<EnumModel>,
    relationships: &Vec<Relationship>,
) -> (r: String)
    ensures
        r@ == diagram_text(
            crate::model::class_views(classes@),
            crate::model::enum_views(enums@),
            rel_views(relationships@),
        ),
{
    let ghost cv = crate::model::class_views(classes@);
    let ghost ev = crate::model::enum_views(enums@);
    let ghost rv = rel_views(relationships@);

    let mut class_strs: Vec<String> = Vec::new();
    let mut i: usize = 0;
    while i < classes.len()
        invariant
            0 <= i <= classes@.len(),
            cv.len() == classes@.len(),
            forall|j: int| 0 <= j < classes@.len() ==> cv[j] == #[trigger] classes@[j]@,
            class_strs@.len() == i,
            forall|j: int| 0 <= j < i ==> #[trigger] class_strs@[j]@ == render_class(cv[j]),
        decreases classes@.len() - i,
    {
        let line = render_class_str(&classes[i]);
        class_strs.push(line);
        i = i + 1;
    }
    let classes_str = join_string_lines(&class_strs);
    proof {
        assert(str_views(class_strs@) =~= class_lines(cv));
    }

    let mut enum_strs: Vec<String> = Vec::new();
    let mut i: usize = 0;
    while i < enums.len()
        invariant
            0 <= i <= enums@.len(),
            ev.len() == enums@.len(),
            forall|j: int| 0 <= j < enums@.len() ==> ev[j] == #[trigger] enums@[j]@,
            enum_strs@.len() == i,
            forall|j: int| 0 <= j < i ==> #[trigger] enum_strs@[j]@ == render_enum(ev[j]),
        decreases enums@.len() - i,
    {
        let line = render_enum_str(&enums[i]);
        enum_strs.push(line);
        i = i + 1;
    }
    let enums_str = join_string_lines(&enum_strs);
    proof {
        assert(str_views(enum_strs@) =~= enum_lines(ev));
    }

    let mut rel_strs: Vec<String> = Vec::new();
    let mut i: usize = 0;
    while i < relationships.len()
        invariant
            0 <= i <= relationships@.len(),
            rv.len() == relationships@.len(),
            forall|j: int| 0 <= j < relationships@.len() ==> rv[j] == #[trigger] relationships@[j]@,
            rel_strs@.len() == i,
            forall|j: int| 0 <= j < i ==> #[trigger] rel_strs@[j]@ == render_rel(rv[j]),
        decreases relationships@.len() - i,
    {
        let line = render_rel_str(&relationships[i]);
        rel_strs.push(line);
        i = i + 1;
    }
    proof {
        assert(str_views(rel_strs@) =~= rel_lines(rv));
    }
    let sorted_rels = sort_strings(rel_strs);
    let rels_str = join_string_lines(&sorted_rels);

    let mut out = String::from_str("```mermaid\nclassDiagram\ndirection LR\n");
    out.append(classes_str.as_str());
    out.append("\n");
    out.append(enums_str.as_str());
    out.append("\n");
    out.append(rels_str.as_str());
    out.append("\n```");
    out
}

} // verus!
