//! The boundary to the external parser. Everything below is trusted: the
//! declarations make `syn`'s types visible to the verifier as opaque
//! values, and the conversion functions carry each declaration over into
//! the plain structural form, one constructor at a time.

use vstd::prelude::*;

use crate::raw::{item_views, RawArg, RawField, RawItem, RawType, RawItemV};

verus! {

#[verifier::external_type_specification]
#[verifier::external_body]
pub struct ExSynItem(syn::Item);

#[verifier::external_type_specification]
#[verifier::external_body]
pub struct ExSynFields(syn::Fields);

#[verifier::external_type_specification]
#[verifier::external_body]
pub struct ExSynType(syn::Type);

#[verifier::external_type_specification]
#[verifier::external_body]
pub struct ExSynPathArguments(syn::PathArguments);

#[verifier::external_type_specification]
#[verifier::external_body]
pub struct ExSynGenericArgument(syn::GenericArgument);

/// What parsing a source file yields: the declarations in order, or
/// nothing when the text is not a valid source file. Parsing depends on
/// the text alone, so the outcome carries a name the contracts can share.
pub uninterp spec fn parsed_items(src: Seq<char>) -> Option<Seq<RawItemV>>;

/// Relies on syn::parse_file: the result is a function of the source text
/// alone, an error comes exactly on text that does not parse, and the
/// declarations come back in source order.
#[verifier::external_body]
pub fn parse_raw_items(src: &str) -> (r: Option<Vec<RawItem>>)
    ensures
        match r {
            Option::Some(items) => parsed_items(src@) == Option::Some(item_views(items@)),
            Option::None => parsed_items(src@) is None,
        },
{
    match syn::parse_file(src) {
        Ok(file) => Some(file.items.into_iter().map(item_to_raw).collect()),
        Err(_) => None,
    }
}

/// Relies on syn::Item: one arm per declaration kind, moving the name and
/// the members; every kind the diagram ignores becomes `Other`.
#[verifier::external_body]
fn item_to_raw(item: syn::Item) -> RawItem {
    match item {
        syn::Item::Struct(s) => RawItem::Struct {
            name: s.ident.to_string(),
            fields: fields_to_raw(s.fields),
        },
        syn::Item::Enum(e) => RawItem::Enum {
            name: e.ident.to_string(),
            variants: e.variants.into_iter().map(|v| v.ident.to_string()).collect(),
        },
        syn::Item::Trait(_) => RawItem::Trait,
        _ => RawItem::Other,
    }
}

/// Relies on syn::Fields: field lists are walked in order; an unnamed
/// field has no identifier; a unit struct has no fields.
#[verifier::external_body]
fn fields_to_raw(fields: syn::Fields) -> Vec<RawField> {
    match fields {
        syn::Fields::Named(n) => n.named.into_iter().map(|f| RawField {
            name: f.ident.as_ref().map(|i| i.to_string()),
            ty: type_to_raw(&f.ty),
        }).collect(),
        syn::Fields::Unnamed(u) => u.unnamed.into_iter().map(|f| RawField {
            name: None,
            ty: type_to_raw(&f.ty),
        }).collect(),
        syn::Fields::Unit => Vec::new(),
    }
}

/// Relies on syn::Type: a path type keeps its last segment's identifier
/// and arguments, a reference keeps its target, and any other form is
/// opaque to the diagram.
#[verifier::external_body]
fn type_to_raw(t: &syn::Type) -> RawType {
    match t {
        syn::Type::Path(p) => match p.path.segments.last() {
            Some(seg) => RawType::Path {
                ident: seg.ident.to_string(),
                args: args_to_raw(&seg.arguments),
            },
            None => RawType::Opaque,
        },
        syn::Type::Reference(r) => RawType::Reference { inner: Box::new(type_to_raw(&r.elem)) },
        _ => RawType::Opaque,
    }
}

/// Relies on syn::PathArguments: an angle-bracketed list is kept in
/// order; parenthesized arguments and a bare path count as no arguments.
#[verifier::external_body]
fn args_to_raw(args: &syn::PathArguments) -> Option<Vec<RawArg>> {
    match args {
        syn::PathArguments::AngleBracketed(ab) => Some(ab.args.iter().map(arg_to_raw).collect()),
        _ => None,
    }
}

/// Relies on syn::GenericArgument: a type argument is carried over; a
/// lifetime, const or binding argument is marked as not a type.
#[verifier::external_body]
fn arg_to_raw(arg: &syn::GenericArgument) -> RawArg {
    match arg {
        syn::GenericArgument::Type(t) => RawArg::Ty(type_to_raw(t)),
        _ => RawArg::NonType,
    }
}

} // verus!
