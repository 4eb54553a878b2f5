//! Translation of the parser's structural form into the internal model:
//! generic arguments that are not types are dropped, the string-slice
//! reference is fused into the single primitive identifier `&str`, and a
//! borrow marks the resulting type model as a reference.

use vstd::prelude::*;
use vstd::string::StringExecFns;

use crate::model::{
    class_wf, field_wf, type_views, type_wf, Class, ClassV, EnumModel, Field, FieldV, TypeModel,
    TypeModelV,
};
use crate::raw::{RawArg, RawArgV, RawField, RawFieldV, RawType, RawTypeV};
use crate::text::str_eq;

verus! {

/// The type models of a generic argument list, in order, keeping only the
/// type arguments.
pub open spec fn args_to_models(args: Seq<RawArgV>) -> Seq<TypeModelV>
    decreases args,
{
    if args.len() == 0 {
        Seq::<TypeModelV>::empty()
    } else {
        let rest = args_to_models(args.drop_last());
        match args.last() {
            RawArgV::Ty(t) => rest.push(model_of_type(t)),
            RawArgV::NonType => rest,
        }
    }
}

/// The type model of one syntactic type.
pub open spec fn model_of_type(t: RawTypeV) -> TypeModelV
    decreases t,
{
    match t {
        RawTypeV::Path { ident, args } => {
            let ms = match args {
                Option::Some(a) => args_to_models(a),
                Option::None => Seq::<TypeModelV>::empty(),
            };
            TypeModelV {
                identifier: ident,
                generics: if ms.len() > 0 {
                    Option::Some(ms)
                } else {
                    Option::None
                },
                reference: false,
            }
        },
        RawTypeV::Reference { inner } => {
            let m = model_of_type(*inner);
            if m.identifier == "str"@ && m.generics is None && !m.reference {
                TypeModelV { identifier: "&str"@, generics: Option::None, reference: false }
            } else {
                TypeModelV { identifier: m.identifier, generics: m.generics, reference: true }
            }
        },
        RawTypeV::Opaque => TypeModelV {
            identifier: "_"@,
            generics: Option::None,
            reference: false,
        },
    }
}

/// Translation always yields a well-formed type model.
pub proof fn lemma_model_of_type_wf(t: RawTypeV)
    ensures
        type_wf(model_of_type(t)),
    decreases t,
{
    match t {
        RawTypeV::Path { ident, args } => {
            match args {
                Option::Some(a) => {
                    lemma_args_to_models_wf(a);
                    let ms = args_to_models(a);
                    if ms.len() > 0 {
                        assert forall|i: int| 0 <= i < ms.len() implies type_wf(
                            #[trigger] ms[i],
                        ) by {
                            assert(type_wf(args_to_models(a)[i]));
                        }
                        assert(type_wf(model_of_type(t)));
                    }
                },
                Option::None => {},
            }
        },
        RawTypeV::Reference { inner } => {
            lemma_model_of_type_wf(*inner);
        },
        RawTypeV::Opaque => {},
    }
}

pub proof fn lemma_args_to_models_wf(args: Seq<RawArgV>)
    ensures
        forall|i: int|
            0 <= i < args_to_models(args).len() ==> type_wf(#[trigger] args_to_models(args)[i]),
    decreases args,
{
    if args.len() > 0 {
        lemma_args_to_models_wf(args.drop_last());
        let rest = args_to_models(args.drop_last());
        match args.last() {
            RawArgV::Ty(t) => {
                lemma_model_of_type_wf(t);
                assert forall|i: int|
                    0 <= i < args_to_models(args).len() implies type_wf(
                    #[trigger] args_to_models(args)[i],
                ) by {
                    if i < rest.len() {
                        assert(args_to_models(args)[i] == rest[i]);
                    } else {
                        assert(args_to_models(args)[i] == model_of_type(t));
                    }
                }
            },
            RawArgV::NonType => {},
        }
    }
}

/// Translates one syntactic type into its type model.
#[verifier::loop_isolation(false)]
pub fn translate_type(t: &RawType) -> (m: TypeModel)
    ensures
        m@ == model_of_type(t@),
        type_wf(m@),
    decreases *t,
{
    proof {
        lemma_model_of_type_wf(t@);
    }
    match t {
        RawType::Path { ident, args } => {
            let mut ms: Vec<TypeModel> = Vec::new();
            let ghost av = match t@ {
                RawTypeV::Path { ident: _, args: a } => a,
                _ => arbitrary(),
            };
            match args {
                Option::Some(a) => {
                    proof {
                        assert(av is Some);
                        assert(av->0.len() == a@.len());
                        assert(type_views(ms@) =~= args_to_models(av->0.take(0)));
                    }
                    let mut i: usize = 0;
                    while i < a.len()
                        invariant
                            0 <= i <= a@.len(),
                            type_views(ms@) == args_to_models(av->0.take(i as int)),
                        decreases a@.len() - i,
                    {
                        proof {
                            assert(av->0[i as int] == a@[i as int]@);
                            assert(av->0.take(i + 1).drop_last() =~= av->0.take(i as int));
                            assert(av->0.take(i + 1).last() == av->0[i as int]);
                        }
                        match &a[i] {
                            RawArg::Ty(inner) => {
                                let part = translate_type(inner);
                                ms.push(part);
                                proof {
                                    assert(type_views(ms@) =~= args_to_models(
                                        av->0.take(i + 1),
                                    ));
                                }
                            },
                            RawArg::NonType => {},
                        }
                        i = i + 1;
                    }
                    proof {
                        assert(av->0.take(av->0.len() as int) =~= av->0);
                    }
                },
                Option::None => {},
            }
            let ghost msv = match t@ {
                RawTypeV::Path { ident: _, args: a } => match a {
                    Option::Some(aa) => args_to_models(aa),
                    Option::None => Seq::<TypeModelV>::empty(),
                },
                _ => arbitrary(),
            };
            proof {
                assert(type_views(ms@) =~= msv);
                assert(ms@.len() == msv.len());
            }
            let ghost msg = ms@;
            let nonempty = ms.len() > 0;
            let generics = if nonempty {
                Option::Some(ms)
            } else {
                Option::None
            };
            let out = TypeModel { identifier: ident.clone(), generics, reference: false };
            proof {
                let mv = model_of_type(t@);
                assert(out@.identifier == mv.identifier);
                if nonempty {
                    assert(out.generics is Some && out.generics->0@ == msg);
                    assert(out@.generics is Some);
                    assert(out@.generics->0.len() == msg.len());
                    assert(mv.generics == Option::Some(msv));
                    assert forall|i: int| 0 <= i < msg.len() implies out@.generics->0[i] == msv[i] by {
                        assert(out@.generics->0[i] == crate::model::type_view(msg[i]));
                        assert(type_views(msg)[i] == crate::model::type_view(msg[i]));
                    }
                    assert(out@.generics->0 =~= msv);
                    assert(out@.generics == mv.generics);
                } else {
                    assert(out@.generics is None && mv.generics is None);
                }
                assert(out@ == mv);
            }
            out
        },
        RawType::Reference { inner } => {
            let m = translate_type(&**inner);
            let fused = m.reference == false && m.generics.is_none() && str_eq(
                m.identifier.as_str(),
                "str",
            );
            if fused {
                let out = TypeModel {
                    identifier: String::from_str("&str"),
                    generics: Option::None,
                    reference: false,
                };
                proof {
                    let mv = model_of_type(t@);
                    assert(out@.identifier == mv.identifier);
                    assert(out@.generics == mv.generics);
                    assert(out@.reference == mv.reference);
                    assert(out@ == mv);
                }
                out
            } else {
                let out = TypeModel {
                    identifier: m.identifier,
                    generics: m.generics,
                    reference: true,
                };
                proof {
                    assert(out@ =~= model_of_type(t@));
                }
                out
            }
        },
        RawType::Opaque => {
            let out = TypeModel {
                identifier: String::from_str("_"),
                generics: Option::None,
                reference: false,
            };
            proof {
                assert(out@ =~= model_of_type(t@));
            }
            out
        },
    }
}

/// The field model of one raw field.
pub open spec fn model_of_field(f: RawFieldV) -> FieldV {
    FieldV { name: f.name, ty: model_of_type(f.ty) }
}

/// The field models of a raw field list.
pub open spec fn models_of_fields(fs: Seq<RawFieldV>) -> Seq<FieldV> {
    Seq::new(fs.len(), |i: int| if 0 <= i < fs.len() { model_of_field(fs[i]) } else { arbitrary() })
}

/// Translates one raw field.
pub fn translate_field(f: &RawField) -> (r: Field)
    ensures
        r@ == model_of_field(f@),
        field_wf(r@),
{
    let name = match &f.name {
        Option::Some(n) => Option::Some(n.clone()),
        Option::None => Option::None,
    };
    let ty = translate_type(&f.ty);
    Field { name, ty }
}

/// The class one struct declaration translates to.
pub open spec fn class_of_struct(name: Seq<char>, fields: Seq<RawFieldV>) -> ClassV {
    ClassV { name: name, fields: models_of_fields(fields) }
}

/// Translates one struct declaration into a class.
pub fn translate_struct(name: String, fields: &Vec<RawField>) -> (c: Class)
    ensures
        c@ == class_of_struct(name@, crate::raw::field_views(fields@)),
        class_wf(c@),
{
    let ghost fv = crate::raw::field_views(fields@);
    let mut out: Vec<Field> = Vec::new();
    let mut i: usize = 0;
    while i < fields.len()
        invariant
            0 <= i <= fields@.len(),
            fv.len() == fields@.len(),
            forall|j: int| 0 <= j < fields@.len() ==> fv[j] == #[trigger] fields@[j]@,
            out@.len() == i,
            forall|j: int| 0 <= j < i ==> #[trigger] out@[j]@ == model_of_field(fv[j]),
            forall|j: int| 0 <= j < i ==> field_wf(#[trigger] out@[j]@),
        decreases fields@.len() - i,
    {
        let field = translate_field(&fields[i]);
        out.push(field);
        i = i + 1;
    }
    let c = Class { name, fields: out };
    proof {
        assert(c@.fields =~= models_of_fields(fv));
        assert(c@ =~= class_of_struct(c.name@, fv));
        assert forall|j: int| 0 <= j < c@.fields.len() implies field_wf(
            #[trigger] c@.fields[j],
        ) by {
            assert(c@.fields[j] == out@[j]@);
        }
    }
    c
}

/// Copies a list of names, keeping the views.
pub fn clone_strings(v: &Vec<String>) -> (r: Vec<String>)
    ensures
        crate::raw::string_views(r@) == crate::raw::string_views(v@),
{
    let mut out: Vec<String> = Vec::new();
    let mut i: usize = 0;
    while i < v.len()
        invariant
            0 <= i <= v@.len(),
            out@.len() == i,
            forall|j: int| 0 <= j < i ==> #[trigger] out@[j]@ == v@[j]@,
        decreases v@.len() - i,
    {
        out.push(v[i].clone());
        i = i + 1;
    }
    proof {
        assert(crate::raw::string_views(out@) =~= crate::raw::string_views(v@));
    }
    out
}

/// Translates one enum declaration.
pub fn translate_enum(name: String, variants: Vec<String>) -> (e: EnumModel)
    ensures
        e@.name == name@,
        e@.variants == crate::raw::string_views(variants@),
{
    let e = EnumModel { name, variants };
    proof {
        assert(e@.variants =~= crate::raw::string_views(e.variants@));
    }
    e
}

} // verus!
