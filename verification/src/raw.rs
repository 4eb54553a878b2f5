//! The structural form the external parser hands over: a plain mirror of
//! the declarations, before translation into the internal model.

use vstd::prelude::*;

verus! {

/// One generic argument: a type, or something that is not a type (a
/// lifetime or a const argument).
pub enum RawArg {
    Ty(RawType),
    NonType,
}

/// One syntactic type: a path with its base identifier and generic
/// arguments, a reference to a type, or a form the translation treats as
/// opaque.
pub enum RawType {
    Path { ident: String, args: Option<Vec<RawArg>> },
    Reference { inner: Box<RawType> },
    Opaque,
}

/// One declared field.
pub struct RawField {
    pub name: Option<String>,
    pub ty: RawType,
}

/// One top-level declaration, as far as the diagram cares: a struct, an
/// enum, a trait (unsupported), or anything else (ignored).
pub enum RawItem {
    Struct { name: String, fields: Vec<RawField> },
    Enum { name: String, variants: Vec<String> },
    Trait,
    Other,
}

#[verifier::ext_equal]
pub enum RawArgV {
    Ty(RawTypeV),
    NonType,
}

#[verifier::ext_equal]
pub enum RawTypeV {
    Path { ident: Seq<char>, args: Option<Seq<RawArgV>> },
    Reference { inner: Box<RawTypeV> },
    Opaque,
}

#[verifier::ext_equal]
pub struct RawFieldV {
    pub name: Option<Seq<char>>,
    pub ty: RawTypeV,
}

#[verifier::ext_equal]
pub enum RawItemV {
    Struct { name: Seq<char>, fields: Seq<RawFieldV> },
    Enum { name: Seq<char>, variants: Seq<Seq<char>> },
    Trait,
    Other,
}

pub open spec fn raw_type_view(t: RawType) -> RawTypeV
    decreases t,
{
    match t {
        RawType::Path { ident, args } => RawTypeV::Path {
            ident: ident@,
            args: match args {
                Option::Some(a) => Option::Some(
                    Seq::new(
                        a@.len(),
                        |i: int| if 0 <= i < a@.len() {
                            raw_arg_view(a@[i])
                        } else {
                            arbitrary()
                        },
                    ),
                ),
                Option::None => Option::None,
            },
        },
        RawType::Reference { inner } => RawTypeV::Reference {
            inner: Box::new(raw_type_view(*inner)),
        },
        RawType::Opaque => RawTypeV::Opaque,
    }
}

pub open spec fn raw_arg_view(a: RawArg) -> RawArgV
    decreases a,
{
    match a {
        RawArg::Ty(t) => RawArgV::Ty(raw_type_view(t)),
        RawArg::NonType => RawArgV::NonType,
    }
}

impl View for RawType {
    type V = RawTypeV;

    open spec fn view(&self) -> RawTypeV {
        raw_type_view(*self)
    }
}

impl View for RawArg {
    type V = RawArgV;

    open spec fn view(&self) -> RawArgV {
        raw_arg_view(*self)
    }
}

impl View for RawField {
    type V = RawFieldV;

    open spec fn view(&self) -> RawFieldV {
        RawFieldV {
            name: match self.name {
                Option::Some(n) => Option::Some(n@),
                Option::None => Option::None,
            },
            ty: self.ty@,
        }
    }
}

impl View for RawItem {
    type V = RawItemV;

    open spec fn view(&self) -> RawItemV {
        match self {
            RawItem::Struct { name, fields } => RawItemV::Struct {
                name: name@,
                fields: Seq::new(
                    fields@.len(),
                    |i: int| if 0 <= i < fields@.len() {
                        fields@[i]@
                    } else {
                        arbitrary()
                    },
                ),
            },
            RawItem::Enum { name, variants } => RawItemV::Enum {
                name: name@,
                variants: Seq::new(
                    variants@.len(),
                    |i: int| if 0 <= i < variants@.len() {
                        variants@[i]@
                    } else {
                        arbitrary()
                    },
                ),
            },
            RawItem::Trait => RawItemV::Trait,
            RawItem::Other => RawItemV::Other,
        }
    }
}

/// The views of a sequence of raw items.
pub open spec fn item_views(s: Seq<RawItem>) -> Seq<RawItemV> {
    Seq::new(s.len(), |i: int| if 0 <= i < s.len() { s[i]@ } else { arbitrary() })
}

/// The views of a sequence of raw fields.
pub open spec fn field_views(s: Seq<RawField>) -> Seq<RawFieldV> {
    Seq::new(s.len(), |i: int| if 0 <= i < s.len() { s[i]@ } else { arbitrary() })
}

/// The views of a sequence of strings.
pub open spec fn string_views(s: Seq<String>) -> Seq<Seq<char>> {
    Seq::new(s.len(), |i: int| if 0 <= i < s.len() { s[i]@ } else { arbitrary() })
}

} // verus!
