#![allow(dead_code)]

use doc_for::{doc_for_derive, doc_dyn_derive, Decl, Member, MetaItem, Shape};
use doc_for::doc_for_derive as renamed_derive;

fn doc_attr(line: &str) -> MetaItem {
    MetaItem::KeyValue { key: "doc".to_string(), value: line.to_string() }
}

fn member(name: &str, attrs: Vec<MetaItem>) -> Member {
    Member { name: name.to_string(), attrs }
}

fn named_decl(name: &str, attrs: Vec<MetaItem>, fields: Vec<Member>) -> Decl {
    Decl { name: name.to_string(), attrs, shape: Shape::Named { fields } }
}

#[test]
fn derive_doc_for_struct() {
    let decl = named_decl(
        "MyStruct",
        vec![doc_attr(" Some documentation")],
        vec![member("field", vec![])],
    );
    let generated = doc_for_derive(decl);
    assert_eq!(generated.doc().unwrap(), " Some documentation");
}

#[test]
fn derive_doc_for_empty() {
    let decl = named_decl("MyStruct", vec![], vec![member("field", vec![])]);
    let generated = doc_for_derive(decl);
    assert!(generated.doc().is_none());
}

#[test]
fn derive_doc_for_renamed() {
    let decl = named_decl(
        "MyStruct",
        vec![doc_attr(" Some documentation")],
        vec![member("field", vec![])],
    );
    let generated = renamed_derive(decl);
    assert_eq!(generated.doc().unwrap(), " Some documentation");
}

#[test]
fn derive_doc_for_override_trait() {
    // A trait of the same name in scope does not disturb the library's.
    trait DocFor {
        fn what() -> &'static str;
    }

    struct MyStruct {
        field: i32,
    }

    impl doc_for::DocFor for MyStruct {
        fn doc() -> Option<String> {
            let decl = named_decl(
                "MyStruct",
                vec![doc_attr(" Some documentation")],
                vec![member("field", vec![])],
            );
            doc_for_derive(decl).doc()
        }
    }

    assert_eq!(<MyStruct as doc_for::DocFor>::doc().unwrap(), " Some documentation");
}

#[test]
fn derive_doc_for_override_const() {
    struct MyStruct {
        field: i32,
    }

    // An inherent accessor of the same name does not shadow the trait's.
    impl MyStruct {
        fn doc() -> Option<String> {
            Some(" Some other documentation".to_string())
        }
    }

    impl doc_for::DocFor for MyStruct {
        fn doc() -> Option<String> {
            let decl = named_decl(
                "MyStruct",
                vec![doc_attr(" Some documentation")],
                vec![member("field", vec![])],
            );
            doc_for_derive(decl).doc()
        }
    }

    assert_eq!(<MyStruct as doc_for::DocFor>::doc().unwrap(), " Some documentation");
}

#[test]
fn derive_doc_for_submod() {
    // The declaration's own name does not matter to the lookup.
    let decl = named_decl(
        "sub::MyStruct",
        vec![doc_attr(" Some documentation")],
        vec![member("field", vec![])],
    );
    let generated = doc_for_derive(decl);
    assert_eq!(generated.doc().unwrap(), " Some documentation");
}

#[test]
fn derive_doc_for_tuple_struct() {
    let decl = Decl {
        name: "MyStruct".to_string(),
        attrs: vec![doc_attr(" Some documentation")],
        shape: Shape::Positional { fields: vec![vec![]] },
    };
    let generated = doc_for_derive(decl);
    assert_eq!(generated.doc().unwrap(), " Some documentation");
}

#[test]
fn derive_doc_for_enum() {
    let decl = Decl {
        name: "MyEnum".to_string(),
        attrs: vec![doc_attr(" Some documentation")],
        shape: Shape::Sum {
            variants: vec![member("Variant", vec![doc_attr(" Variant documentation")])],
        },
    };
    let generated = doc_for_derive(decl);
    assert_eq!(generated.doc().unwrap(), " Some documentation");
}

#[test]
fn derive_doc_for_union() {
    let decl = Decl {
        name: "MyUnion".to_string(),
        attrs: vec![doc_attr(" Some documentation")],
        shape: Shape::Overlay { fields: vec![member("field", vec![])] },
    };
    let generated = doc_for_derive(decl);
    assert_eq!(generated.doc().unwrap(), " Some documentation");
}

#[test]
fn derive_doc_for_sub_struct() {
    let decl = named_decl(
        "MyStruct",
        vec![],
        vec![
            member("field", vec![doc_attr(" Field documentation")]),
            member("not_documented", vec![]),
        ],
    );
    let generated = doc_for_derive(decl);
    assert_eq!(generated.doc_for_field("field").unwrap(), " Field documentation");
    assert!(generated.doc_for_field("not_documented").is_none());
}

#[test]
fn derive_doc_for_sub_tuple_struct() {
    let decl = Decl {
        name: "MyStruct".to_string(),
        attrs: vec![],
        shape: Shape::Positional { fields: vec![vec![doc_attr(" Field documentation")]] },
    };
    let generated = doc_for_derive(decl);
    assert_eq!(generated.doc_for_field_index(0).unwrap(), " Field documentation");
}

#[test]
fn derive_doc_for_sub_enum() {
    let decl = Decl {
        name: "MyEnum".to_string(),
        attrs: vec![],
        shape: Shape::Sum {
            variants: vec![
                member("Variant", vec![doc_attr(" Variant documentation")]),
                member("NotDocumented", vec![]),
            ],
        },
    };
    let generated = doc_for_derive(decl);
    assert_eq!(generated.doc_for_field("Variant").unwrap(), " Variant documentation");
    assert!(generated.doc_for_field("NotDocumented").is_none());
}

#[test]
fn derive_doc_for_sub_union() {
    let decl = Decl {
        name: "MyUnion".to_string(),
        attrs: vec![],
        shape: Shape::Overlay {
            fields: vec![
                member("field", vec![doc_attr(" Field documentation")]),
                member("not_documented", vec![]),
            ],
        },
    };
    let generated = doc_for_derive(decl);
    assert_eq!(generated.doc_for_field("field").unwrap(), " Field documentation");
    assert!(generated.doc_for_field("not_documented").is_none());
}

#[test]
fn derive_mixed_struct() {
    let decl = named_decl(
        "MyStruct",
        vec![doc_attr(" Some documentation")],
        vec![
            member("field", vec![doc_attr(" Field documentation")]),
            member("not_documented", vec![]),
        ],
    );
    let generated = doc_for_derive(decl);
    assert_eq!(generated.doc().unwrap(), " Some documentation");
    assert_eq!(generated.doc_for_field("field").unwrap(), " Field documentation");
    assert!(generated.doc_for_field("not_documented").is_none());
}

#[test]
fn derive_mixed_tuple_struct() {
    let decl = Decl {
        name: "MyStruct".to_string(),
        attrs: vec![doc_attr(" Some documentation")],
        shape: Shape::Positional { fields: vec![vec![doc_attr(" Field documentation")]] },
    };
    let generated = doc_for_derive(decl);
    assert_eq!(generated.doc().unwrap(), " Some documentation");
    assert_eq!(generated.doc_for_field_index(0).unwrap(), " Field documentation");
}

#[test]
fn derive_mixed_enum() {
    let decl = Decl {
        name: "MyEnum".to_string(),
        attrs: vec![doc_attr(" Some documentation")],
        shape: Shape::Sum {
            variants: vec![
                member("Variant", vec![doc_attr(" Variant documentation")]),
                member("NotDocumented", vec![]),
            ],
        },
    };
    let generated = doc_for_derive(decl);
    assert_eq!(generated.doc().unwrap(), " Some documentation");
    assert_eq!(generated.doc_for_field("Variant").unwrap(), " Variant documentation");
    assert!(generated.doc_for_field("NotDocumented").is_none());
}

#[test]
fn derive_mixed_union() {
    let decl = Decl {
        name: "MyUnion".to_string(),
        attrs: vec![doc_attr(" Some documentation")],
        shape: Shape::Overlay {
            fields: vec![
                member("field", vec![doc_attr(" Field documentation")]),
                member("not_documented", vec![]),
            ],
        },
    };
    let generated = doc_for_derive(decl);
    assert_eq!(generated.doc().unwrap(), " Some documentation");
    assert_eq!(generated.doc_for_field("field").unwrap(), " Field documentation");
    assert!(generated.doc_for_field("not_documented").is_none());
}

#[test]
fn derive_doc_for_unwrap() {
    let decl = named_decl(
        "MyStruct",
        vec![doc_attr(" Some documentation")],
        vec![member("field", vec![])],
    );
    let generated = doc_for_derive(decl);
    assert_eq!(generated.doc_unwrap(), " Some documentation");
}

#[test]
fn doc_for_field_unwrap_returns_the_text() {
    let decl = named_decl(
        "MyStruct",
        vec![],
        vec![member("field", vec![doc_attr(" Field documentation")])],
    );
    let generated = doc_for_derive(decl);
    assert_eq!(generated.doc_for_field_unwrap("field"), " Field documentation");
}

#[test]
fn doc_for_field_index_unwrap_returns_the_text() {
    let decl = Decl {
        name: "MyStruct".to_string(),
        attrs: vec![],
        shape: Shape::Positional { fields: vec![vec![doc_attr(" Field documentation")]] },
    };
    let generated = doc_for_derive(decl);
    assert_eq!(generated.doc_for_field_index_unwrap(0), " Field documentation");
}

#[test]
fn derive_doc_dyn() {
    let decl = Decl {
        name: "MyEnum".to_string(),
        attrs: vec![doc_attr(" Some documentation")],
        shape: Shape::Sum {
            variants: vec![
                member("Variant1", vec![doc_attr(" Variant documentation")]),
                member("Variant2", vec![]),
            ],
        },
    };
    let generated = match doc_dyn_derive(decl) {
        Ok(g) => g,
        Err(e) => panic!("expected a sum type to be accepted: {:?}", e),
    };
    assert_eq!(generated.doc_dyn(0).unwrap(), " Variant documentation");
    assert!(generated.doc_dyn(1).is_none());
}
