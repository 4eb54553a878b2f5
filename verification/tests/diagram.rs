use mermaid_class_diagram::{
    create_class_diagram_string, get_identifier_from_generic_type, get_relationships_from_class,
    is_primitive, try_create_class_diagram_string, Class, DiagramError, Field, Relationship,
    TypeModel,
};

fn count_occurrences(haystack: &str, needle: &str) -> usize {
    haystack.match_indices(needle).count()
}

#[test]
fn scenario_owned_field_gives_composition() {
    let input = "struct Foo { bar: Bar }\nstruct Bar { x: i32 }".to_string();
    let out = create_class_diagram_string(input);
    let expected = "```mermaid\nclassDiagram\ndirection LR\nclass Foo {\n    +Bar bar\n}\nclass Bar {\n    +i32 x\n}\n\nFoo *-- Bar\n```";
    assert_eq!(out, expected);
}

#[test]
fn scenario_reference_field_gives_association() {
    let input = "struct Foo { bar: &Bar }\nstruct Bar {}".to_string();
    let out = create_class_diagram_string(input);
    let expected = "```mermaid\nclassDiagram\ndirection LR\nclass Foo {\n    +&Bar bar\n}\nclass Bar {\n}\n\nFoo --> Bar\n```";
    assert_eq!(out, expected);
}

#[test]
fn scenario_generic_container_unwraps() {
    let input = "struct Foo { bars: Vec<Bar> }\nstruct Bar {}".to_string();
    let out = create_class_diagram_string(input);
    let expected = "```mermaid\nclassDiagram\ndirection LR\nclass Foo {\n    +Vec~Bar~ bars\n}\nclass Bar {\n}\n\nFoo *-- Bar\n```";
    assert_eq!(out, expected);
}

#[test]
fn scenario_enum_only() {
    let input = "enum Signal { Red, Yellow, Green }".to_string();
    let out = create_class_diagram_string(input);
    let expected = "```mermaid\nclassDiagram\ndirection LR\n\nclass Signal {\n    <<enumeration>>\n    Red\n    Yellow\n    Green\n}\n\n```";
    assert_eq!(out, expected);
}

#[test]
fn scenario_string_field_gives_no_relationship() {
    let input = "struct S { name: String }".to_string();
    let out = create_class_diagram_string(input);
    assert!(!out.contains("*--"));
    assert!(!out.contains("-->"));
    assert!(out.contains("class S {"));
    assert!(out.contains("    +String name"));
}

#[test]
fn conversion_is_deterministic() {
    let input = "struct A { b: B, c: &C }\nstruct B {}\nstruct C {}\nenum E { X, Y }";
    let first = try_create_class_diagram_string(input).unwrap();
    let second = try_create_class_diagram_string(input).unwrap();
    assert_eq!(first, second);
}

#[test]
fn primitives_are_excluded_regardless_of_reference() {
    let input = "struct S { a: &str, b: u64, c: bool, d: &i32 }".to_string();
    let out = create_class_diagram_string(input);
    assert!(!out.contains("*--"));
    assert!(!out.contains("-->"));
}

#[test]
fn duplicate_edges_collapse_to_one() {
    let input = "struct Foo { a: Bar, b: Bar, c: Vec<Bar> }\nstruct Bar {}".to_string();
    let out = create_class_diagram_string(input);
    assert_eq!(count_occurrences(&out, "Foo *-- Bar"), 1);
}

#[test]
fn duplicate_edges_across_kinds_stay_distinct() {
    let input = "struct Foo { a: Bar, b: &Bar }\nstruct Bar {}".to_string();
    let out = create_class_diagram_string(input);
    assert_eq!(count_occurrences(&out, "Foo *-- Bar"), 1);
    assert_eq!(count_occurrences(&out, "Foo --> Bar"), 1);
}

#[test]
fn unnamed_fields_give_no_relationships() {
    let input = "struct Foo(Bar);\nstruct Bar {}".to_string();
    let out = create_class_diagram_string(input);
    assert!(!out.contains("*--"));
    assert!(!out.contains("-->"));
    assert!(out.contains("    +Bar\n"));
}

#[test]
fn nested_generics_resolve_to_innermost_first_parameter() {
    let input = "struct Foo { x: Option<Vec<Bar>> }\nstruct Bar {}".to_string();
    let out = create_class_diagram_string(input);
    assert_eq!(count_occurrences(&out, "Foo *-- Bar"), 1);
}

#[test]
fn reference_to_container_is_association() {
    let input = "struct Foo { x: &Vec<Bar> }\nstruct Bar {}".to_string();
    let out = create_class_diagram_string(input);
    assert_eq!(count_occurrences(&out, "Foo --> Bar"), 1);
    assert!(!out.contains("*--"));
}

#[test]
fn map_relates_through_first_parameter() {
    let input = "struct Foo { x: HashMap<Bar, Baz> }\nstruct Bar {}\nstruct Baz {}".to_string();
    let out = create_class_diagram_string(input);
    assert_eq!(count_occurrences(&out, "Foo *-- Bar"), 1);
    assert!(!out.contains("Foo *-- Baz"));
}

#[test]
fn relationships_are_sorted_lexicographically() {
    let input = "struct B { z: Z, a: A }\nstruct A {}\nstruct Z {}".to_string();
    let out = create_class_diagram_string(input);
    let a = out.find("B *-- A").unwrap();
    let z = out.find("B *-- Z").unwrap();
    assert!(a < z);
}

#[test]
fn impl_and_mod_declarations_are_ignored() {
    let input = "struct Foo {}\nimpl Foo {}\nmod inner {}".to_string();
    let out = create_class_diagram_string(input);
    assert_eq!(count_occurrences(&out, "class Foo {"), 1);
    assert!(!out.contains("inner"));
}

#[test]
fn trait_declarations_are_refused() {
    let result = try_create_class_diagram_string("trait T {}\nstruct S {}");
    assert_eq!(result.unwrap_err(), DiagramError::UnsupportedTrait);
}

#[test]
fn unparseable_input_is_refused() {
    let result = try_create_class_diagram_string("fn (");
    assert_eq!(result.unwrap_err(), DiagramError::Unparseable);
}

#[test]
fn error_descriptions_name_the_cause() {
    assert_eq!(
        DiagramError::Unparseable.describe(),
        "input is not a parseable source file"
    );
    assert_eq!(
        DiagramError::UnsupportedTrait.describe(),
        "trait declarations are not supported"
    );
}

#[test]
fn is_primitive_matches_the_fixed_set() {
    for p in [
        "String", "&str", "f32", "f64", "i32", "u32", "i64", "u64", "i16", "u16", "i8", "u8",
        "usize", "isize", "bool",
    ] {
        assert!(is_primitive(p));
    }
    assert!(!is_primitive("str"));
    assert!(!is_primitive("Foo"));
    assert!(!is_primitive("string"));
    assert!(!is_primitive(""));
}

#[test]
fn generic_resolution_follows_first_parameter() {
    let inner = TypeModel {
        identifier: "Bar".to_string(),
        generics: None,
        reference: false,
    };
    let outer = TypeModel {
        identifier: "Vec".to_string(),
        generics: Some(vec![inner]),
        reference: false,
    };
    assert_eq!(get_identifier_from_generic_type(&outer), "Bar");
    let bare = TypeModel {
        identifier: "Baz".to_string(),
        generics: None,
        reference: true,
    };
    assert_eq!(get_identifier_from_generic_type(&bare), "Baz");
}

#[test]
fn class_extraction_dedups_and_classifies() {
    let class = Class {
        name: "Foo".to_string(),
        fields: vec![
            Field {
                name: Some("a".to_string()),
                ty: TypeModel {
                    identifier: "Bar".to_string(),
                    generics: None,
                    reference: false,
                },
            },
            Field {
                name: Some("b".to_string()),
                ty: TypeModel {
                    identifier: "Bar".to_string(),
                    generics: None,
                    reference: false,
                },
            },
            Field {
                name: Some("c".to_string()),
                ty: TypeModel {
                    identifier: "Qux".to_string(),
                    generics: None,
                    reference: true,
                },
            },
            Field {
                name: None,
                ty: TypeModel {
                    identifier: "Hidden".to_string(),
                    generics: None,
                    reference: false,
                },
            },
        ],
    };
    let rels = get_relationships_from_class(class);
    assert_eq!(rels.len(), 2);
    assert!(matches!(
        &rels[0],
        Relationship::Composition(from, to) if from == "Foo" && to == "Bar"
    ));
    assert!(matches!(
        &rels[1],
        Relationship::Association(from, to) if from == "Foo" && to == "Qux"
    ));
}

#[test]
fn empty_input_gives_empty_diagram() {
    let out = create_class_diagram_string(String::new());
    assert_eq!(out, "```mermaid\nclassDiagram\ndirection LR\n\n\n\n```");
}
