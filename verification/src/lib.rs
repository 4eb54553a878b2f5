//! Generates Mermaid class-diagram text from Rust type declarations.
//!
//! The library parses a source file (through `syn`), translates the struct
//! and enum declarations into a small internal model, infers composition and
//! association relationships between the declared classes, and renders a
//! deterministic Mermaid diagram.

use vstd::prelude::*;

pub mod laws;
pub mod model;
pub mod parse;
pub mod raw;
pub mod relate;
pub mod render;
pub mod text;
pub mod translate;

pub use model::{
    get_identifier_from_generic_type, Class, EnumModel, Field, MermaidResult, Relationship,
    TypeModel,
};
pub use relate::get_relationships_from_class;
pub use text::is_primitive;

use crate::model::{class_views, enum_views, ClassV, EnumModelV, RelationshipV};
use crate::parse::{parse_raw_items, parsed_items};
use crate::raw::{item_views, RawItem, RawItemV};
use crate::relate::{class_rel_seq, get_relationships_from_class as extract_rels, insert_all_spec,
    merge_rels, rel_views};
use crate::render::{diagram_text, render_diagram};
use crate::translate::{class_of_struct, clone_strings, translate_enum, translate_struct};

verus! {

/// Why a conversion gave no diagram.
#[derive(Debug, PartialEq, Eq, Structural)]
pub enum DiagramError {
    /// The input is not a parseable source file.
    Unparseable,
    /// The input declares a trait, which the diagram does not support.
    UnsupportedTrait,
}

impl DiagramError {
    /// A short description of what could not be processed.
    pub fn describe(&self) -> (r: &'static str)
        ensures
            *self is Unparseable ==> r@ == "input is not a parseable source file"@,
            *self is UnsupportedTrait ==> r@ == "trait declarations are not supported"@,
    {
        match self {
            DiagramError::Unparseable => "input is not a parseable source file",
            DiagramError::UnsupportedTrait => "trait declarations are not supported",
        }
    }
}

/// Whether some declaration is a trait.
pub open spec fn has_trait(items: Seq<RawItemV>) -> bool {
    exists|i: int| 0 <= i < items.len() && (#[trigger] items[i]) is Trait
}

/// The classes of the declarations, in declaration order.
pub open spec fn classes_of(items: Seq<RawItemV>) -> Seq<ClassV>
    decreases items.len(),
{
    if items.len() == 0 {
        Seq::<ClassV>::empty()
    } else {
        let rest = classes_of(items.drop_last());
        match items.last() {
            RawItemV::Struct { name, fields } => rest.push(class_of_struct(name, fields)),
            _ => rest,
        }
    }
}

/// The enumerations of the declarations, in declaration order.
pub open spec fn enums_of(items: Seq<RawItemV>) -> Seq<EnumModelV>
    decreases items.len(),
{
    if items.len() == 0 {
        Seq::<EnumModelV>::empty()
    } else {
        let rest = enums_of(items.drop_last());
        match items.last() {
            RawItemV::Enum { name, variants } => rest.push(EnumModelV { name, variants }),
            _ => rest,
        }
    }
}

/// The globally deduplicated relationship sequence of the declarations, in
/// first occurrence order.
pub open spec fn rels_of_items(items: Seq<RawItemV>) -> Seq<RelationshipV>
    decreases items.len(),
{
    if items.len() == 0 {
        Seq::<RelationshipV>::empty()
    } else {
        let rest = rels_of_items(items.drop_last());
        match items.last() {
            RawItemV::Struct { name, fields } => insert_all_spec(
                rest,
                class_rel_seq(class_of_struct(name, fields)),
            ),
            _ => rest,
        }
    }
}

/// The diagram text of a parsed declaration list.
pub open spec fn diagram_of(items: Seq<RawItemV>) -> Seq<char> {
    diagram_text(classes_of(items), enums_of(items), rels_of_items(items))
}

/// What one conversion yields for a given input: the diagram text, or the
/// error that stops it.
pub open spec fn convert_result(src: Seq<char>) -> Result<Seq<char>, DiagramError> {
    match parsed_items(src) {
        Option::None => Result::Err(DiagramError::Unparseable),
        Option::Some(items) => if has_trait(items) {
            Result::Err(DiagramError::UnsupportedTrait)
        } else {
            Result::Ok(diagram_of(items))
        },
    }
}

/// Parses the input and accumulates classes, enumerations and the globally
/// deduplicated relationships, in declaration order.
pub fn parse_src_into_mermaid(src: &str) -> (r: Result<MermaidResult, DiagramError>)
    ensures
        match r {
            Result::Ok(res) => parsed_items(src@) matches Option::Some(items) && !has_trait(items)
                && class_views(res.classes@) == classes_of(items) && enum_views(res.enums@)
                == enums_of(items) && rel_views(res.relationships@) == rels_of_items(items),
            Result::Err(e) => match e {
                DiagramError::Unparseable => parsed_items(src@) is None,
                DiagramError::UnsupportedTrait => parsed_items(src@) matches Option::Some(items)
                    && has_trait(items),
            },
        },
{
    let items_opt = parse_raw_items(src);
    match items_opt {
        Option::None => Result::Err(DiagramError::Unparseable),
        Option::Some(items) => {
            let ghost iv = item_views(items@);
            let mut classes: Vec<Class> = Vec::new();
            let mut enums: Vec<EnumModel> = Vec::new();
            let mut relationships: Vec<Relationship> = Vec::new();
            proof {
                assert(class_views(classes@) =~= classes_of(iv.take(0)));
                assert(enum_views(enums@) =~= enums_of(iv.take(0)));
                assert(rel_views(relationships@) =~= rels_of_items(iv.take(0)));
            }
            let mut i: usize = 0;
            while i < items.len()
                invariant
                    0 <= i <= items@.len(),
                    iv == item_views(items@),
                    iv.len() == items@.len(),
                    parsed_items(src@) == Option::Some(iv),
                    !has_trait(iv.take(i as int)),
                    class_views(classes@) == classes_of(iv.take(i as int)),
                    enum_views(enums@) == enums_of(iv.take(i as int)),
                    rel_views(relationships@) == rels_of_items(iv.take(i as int)),
                decreases items@.len() - i,
            {
                proof {
                    assert(iv[i as int] == items@[i as int]@);
                    assert(iv.take(i + 1).drop_last() =~= iv.take(i as int));
                    assert(iv.take(i + 1).last() == iv[i as int]);
                }
                match &items[i] {
                    RawItem::Struct { name, fields } => {
                        proof {
                            assert(iv[i as int] matches RawItemV::Struct { name: n, fields: f }
                                && n == name@ && f =~= crate::raw::field_views(fields@));
                        }
                        // The extractor consumes its class; translation is
                        // pure, so a second run stands in for a clone.
                        let class = translate_struct(name.clone(), fields);
                        let rels = extract_rels(class);
                        merge_rels(&mut relationships, rels);
                        let class = translate_struct(name.clone(), fields);
                        classes.push(class);
                        proof {
                            assert(class_views(classes@) =~= classes_of(iv.take(i + 1)));
                            assert(rel_views(relationships@) == rels_of_items(iv.take(i + 1)));
                            assert(enum_views(enums@) == enums_of(iv.take(i + 1)));
                        }
                    },
                    RawItem::Enum { name, variants } => {
                        proof {
                            assert(iv[i as int] matches RawItemV::Enum { name: n, variants: v }
                                && n == name@ && v =~= crate::raw::string_views(variants@));
                        }
                        let e = translate_enum(name.clone(), clone_strings(variants));
                        enums.push(e);
                        proof {
                            assert(enum_views(enums@) =~= enums_of(iv.take(i + 1)));
                            assert(class_views(classes@) == classes_of(iv.take(i + 1)));
                            assert(rel_views(relationships@) == rels_of_items(iv.take(i + 1)));
                        }
                    },
                    RawItem::Trait => {
                        proof {
                            assert(iv[i as int] is Trait);
                            assert(has_trait(iv));
                        }
                        return Result::Err(DiagramError::UnsupportedTrait);
                    },
                    RawItem::Other => {
                        proof {
                            assert(iv[i as int] is Other);
                            assert(class_views(classes@) == classes_of(iv.take(i + 1)));
                            assert(enum_views(enums@) == enums_of(iv.take(i + 1)));
                            assert(rel_views(relationships@) == rels_of_items(iv.take(i + 1)));
                        }
                    },
                }
                i = i + 1;
            }
            proof {
                assert(iv.take(iv.len() as int) =~= iv);
            }
            Result::Ok(MermaidResult { classes, enums, relationships })
        },
    }
}

/// Converts a source file into Mermaid class-diagram text, or reports why
/// the conversion is impossible: the text does not parse, or it declares a
/// trait.
pub fn try_create_class_diagram_string(input: &str) -> (r: Result<String, DiagramError>)
    ensures
        match r {
            Result::Ok(s) => convert_result(input@) == Result::<Seq<char>, DiagramError>::Ok(s@),
            Result::Err(e) => convert_result(input@) == Result::<Seq<char>, DiagramError>::Err(e),
        },
{
    match parse_src_into_mermaid(input) {
        Result::Err(e) => Result::Err(e),
        Result::Ok(res) => Result::Ok(
            render_diagram(&res.classes, &res.enums, &res.relationships),
        ),
    }
}

/// Converts a source file into Mermaid class-diagram text. The input must
/// be parseable and free of trait declarations; `try_create_class_diagram_string`
/// decides that and reports the reason otherwise.
pub fn create_class_diagram_string(input: String) -> (r: String)
    requires
        convert_result(input@) is Ok,
    ensures
        convert_result(input@) == Result::<Seq<char>, DiagramError>::Ok(r@),
{
    match try_create_class_diagram_string(input.as_str()) {
        Result::Ok(s) => s,
        Result::Err(_) => vstd::pervasive::unreached(),
    }
}

} // verus!
