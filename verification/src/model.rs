//! The internal model: types, fields, classes, enumerations, relationships.

use vstd::prelude::*;

verus! {

/// A declared type as a field uses it: a base identifier, an optional
/// non-empty list of generic type parameters, and whether the field reaches
/// the type through a borrow.
pub struct TypeModel {
    pub identifier: String,
    pub generics: Option<Vec<TypeModel>>,
    pub reference: bool,
}

/// Mathematical image of a `TypeModel`.
#[verifier::ext_equal]
pub struct TypeModelV {
    pub identifier: Seq<char>,
    pub generics: Option<Seq<TypeModelV>>,
    pub reference: bool,
}

/// The mathematical image of a `TypeModel`, defined by structural recursion.
pub open spec fn type_view(t: TypeModel) -> TypeModelV
    decreases t,
{
    TypeModelV {
        identifier: t.identifier@,
        generics: match t.generics {
            Option::Some(gs) => Option::Some(
                Seq::new(
                    gs@.len(),
                    |i: int| if 0 <= i < gs@.len() {
                        type_view(gs@[i])
                    } else {
                        arbitrary()
                    },
                ),
            ),
            Option::None => Option::None,
        },
        reference: t.reference,
    }
}

impl View for TypeModel {
    type V = TypeModelV;

    open spec fn view(&self) -> TypeModelV {
        type_view(*self)
    }
}

/// A generic list, when present, is non-empty, and so on recursively.
pub open spec fn type_wf(t: TypeModelV) -> bool
    decreases t,
{
    match t.generics {
        Option::Some(gs) => gs.len() > 0 && (forall|i: int|
            0 <= i < gs.len() ==> type_wf(#[trigger] gs[i])),
        Option::None => true,
    }
}

/// The identifier a field reference resolves to: a generic container is
/// transparent, and resolution follows the first type parameter until a
/// parameter-free type is reached.
pub open spec fn resolve_spec(t: TypeModelV) -> Seq<char>
    decreases t,
{
    match t.generics {
        Option::Some(gs) => if gs.len() > 0 {
            resolve_spec(gs[0])
        } else {
            t.identifier
        },
        Option::None => t.identifier,
    }
}

/// One field of a class: tuple-style fields carry no name.
pub struct Field {
    pub name: Option<String>,
    pub ty: TypeModel,
}

#[verifier::ext_equal]
pub struct FieldV {
    pub name: Option<Seq<char>>,
    pub ty: TypeModelV,
}

impl View for Field {
    type V = FieldV;

    open spec fn view(&self) -> FieldV {
        FieldV {
            name: match self.name {
                Option::Some(n) => Option::Some(n@),
                Option::None => Option::None,
            },
            ty: self.ty@,
        }
    }
}

pub open spec fn field_wf(f: FieldV) -> bool {
    type_wf(f.ty)
}

/// A class: the name and ordered fields of one struct declaration.
pub struct Class {
    pub name: String,
    pub fields: Vec<Field>,
}

#[verifier::ext_equal]
pub struct ClassV {
    pub name: Seq<char>,
    pub fields: Seq<FieldV>,
}

impl View for Class {
    type V = ClassV;

    open spec fn view(&self) -> ClassV {
        ClassV { name: self.name@, fields: Seq::new(self.fields@.len(), |i: int| self.fields@[i]@) }
    }
}

pub open spec fn class_wf(c: ClassV) -> bool {
    forall|i: int| 0 <= i < c.fields.len() ==> #[trigger] field_wf(c.fields[i])
}

/// An enumeration: the name of one enum declaration and its variant
/// names; nothing else of the variants is kept.
pub struct EnumModel {
    pub name: String,
    pub variants: Vec<String>,
}

#[verifier::ext_equal]
pub struct EnumModelV {
    pub name: Seq<char>,
    pub variants: Seq<Seq<char>>,
}

impl View for EnumModel {
    type V = EnumModelV;

    open spec fn view(&self) -> EnumModelV {
        EnumModelV {
            name: self.name@,
            variants: Seq::new(self.variants@.len(), |i: int| self.variants@[i]@),
        }
    }
}

/// A directed, typed edge between two class names.
pub enum Relationship {
    /// The first class holds the second by value.
    Composition(String, String),
    /// The first class holds a borrow of the second.
    Association(String, String),
}

#[verifier::ext_equal]
pub enum RelationshipV {
    Composition(Seq<char>, Seq<char>),
    Association(Seq<char>, Seq<char>),
}

impl View for Relationship {
    type V = RelationshipV;

    open spec fn view(&self) -> RelationshipV {
        match self {
            Relationship::Composition(from, to) => RelationshipV::Composition(from@, to@),
            Relationship::Association(from, to) => RelationshipV::Association(from@, to@),
        }
    }
}

/// The views of a sequence of type models.
pub open spec fn type_views(s: Seq<TypeModel>) -> Seq<TypeModelV> {
    Seq::new(s.len(), |i: int| if 0 <= i < s.len() { type_view(s[i]) } else { arbitrary() })
}

/// The views of a sequence of classes.
pub open spec fn class_views(s: Seq<Class>) -> Seq<ClassV> {
    Seq::new(s.len(), |i: int| if 0 <= i < s.len() { s[i]@ } else { arbitrary() })
}

/// The views of a sequence of enumerations.
pub open spec fn enum_views(s: Seq<EnumModel>) -> Seq<EnumModelV> {
    Seq::new(s.len(), |i: int| if 0 <= i < s.len() { s[i]@ } else { arbitrary() })
}

/// The aggregate one conversion produces: classes and enumerations in
/// declaration order, and the deduplicated relationship set.
pub struct MermaidResult {
    pub classes: Vec<Class>,
    pub enums: Vec<EnumModel>,
    pub relationships: Vec<Relationship>,
}

/// Resolves the identifier that participates in a relationship, following
/// the first generic parameter until a parameter-free type is reached.
pub fn get_identifier_from_generic_type(ty: &TypeModel) -> (r: String)
    requires
        type_wf(ty@),
    ensures
        r@ == resolve_spec(ty@),
    decreases *ty,
{
    match &ty.generics {
        Option::Some(gs) => {
            proof {
                assert(ty@.generics->0.len() == gs@.len());
            }
            let first = &gs[0];
            proof {
                assert(ty@.generics->0[0] == first@);
                assert(type_wf(ty@.generics->0[0]));
            }
            get_identifier_from_generic_type(first)
        },
        Option::None => ty.identifier.clone(),
    }
}

} // verus!
