#![allow(dead_code)]

use doc_for::{
    doc_impl, Attrs, Decl, DocError, Expansion, Member, MetaItem, MetaPair, Shape, ValueExpr,
};
use doc_for::DocDyn;

fn doc_attr(line: &str) -> MetaItem {
    MetaItem::KeyValue { key: "doc".to_string(), value: line.to_string() }
}

fn member(name: &str, attrs: Vec<MetaItem>) -> Member {
    Member { name: name.to_string(), attrs }
}

fn pair(key: &str, value: ValueExpr) -> MetaPair {
    MetaPair { path: vec![key.to_string()], value }
}

fn parse_attrs(pairs: Vec<MetaPair>) -> Attrs {
    match Attrs::parse(&pairs) {
        Ok(a) => a,
        Err(e) => panic!("expected the option list to parse: {:?}", e),
    }
}

fn run(decl: Decl, attrs: &Attrs) -> Expansion {
    match doc_impl(decl, attrs) {
        Ok(e) => e,
        Err(e) => panic!("expected the invocation to succeed: {:?}", e),
    }
}

fn run_err(decl: Decl, attrs: &Attrs) -> DocError {
    match doc_impl(decl, attrs) {
        Ok(_) => panic!("expected the invocation to fail"),
        Err(e) => e,
    }
}

fn error_enum() -> Decl {
    Decl {
        name: "MyError".to_string(),
        attrs: vec![doc_attr(" Some documentation")],
        shape: Shape::Sum {
            variants: vec![
                member("Error1", vec![doc_attr(" Error1 message")]),
                member("Error2", vec![doc_attr(" Error2 message")]),
            ],
        },
    }
}

fn last_item(m: &Member) -> &MetaItem {
    match m.attrs.last() {
        Some(item) => item,
        None => panic!("expected the member to carry metadata items"),
    }
}

fn assert_key_value(item: &MetaItem, key: &str, value: &str) {
    match item {
        MetaItem::KeyValue { key: k, value: v } => {
            assert_eq!(k, key);
            assert_eq!(v, value);
        }
        MetaItem::Path { .. } => panic!("expected a key-value metadata item"),
    }
}

#[test]
fn attr_doc_for_default() {
    let attrs = parse_attrs(vec![]);
    let decl = Decl {
        name: "MyStruct".to_string(),
        attrs: vec![doc_attr(" Some documentation")],
        shape: Shape::Named { fields: vec![member("field", vec![])] },
    };
    let expansion = run(decl, &attrs);
    let generated = match &expansion.doc_for {
        Some(g) => g,
        None => panic!("expected the lookup to be generated by default"),
    };
    assert_eq!(generated.doc().unwrap(), " Some documentation");
}

#[test]
fn attr_doc_for_gen_attrs() {
    let attrs = parse_attrs(vec![
        pair("strip", ValueExpr::Int { value: 1 }),
        pair("gen_attr", ValueExpr::Str { value: "error({doc})".to_string() }),
    ]);
    let expansion = run(error_enum(), &attrs);
    match &expansion.decl.shape {
        Shape::Sum { variants } => {
            assert_key_value(last_item(&variants[0]), "error", "Error1 message");
            assert_key_value(last_item(&variants[1]), "error", "Error2 message");
        }
        _ => panic!("expected the sum shape to be preserved"),
    }
}

#[test]
fn attr_doc_for_disabled() {
    let attrs = parse_attrs(vec![pair("doc_for", ValueExpr::Bool { value: false })]);
    let decl = Decl {
        name: "MyStruct".to_string(),
        attrs: vec![doc_attr(" Some documentation")],
        shape: Shape::Named { fields: vec![] },
    };
    let expansion = run(decl, &attrs);
    assert!(expansion.doc_for.is_none());
    assert!(expansion.doc_dyn.is_none());
}

#[test]
fn attr_doc_dyn_enabled() {
    let attrs = parse_attrs(vec![pair("doc_dyn", ValueExpr::Bool { value: true })]);
    let expansion = run(error_enum(), &attrs);
    let dynamic = match &expansion.doc_dyn {
        Some(d) => d,
        None => panic!("expected the dynamic lookup to be generated"),
    };
    assert_eq!(dynamic.doc_dyn(0).unwrap(), " Error1 message");
    assert_eq!(dynamic.doc_dyn(1).unwrap(), " Error2 message");
}

#[test]
fn attr_doc_dyn_rejects_non_sum() {
    let attrs = parse_attrs(vec![pair("doc_dyn", ValueExpr::Bool { value: true })]);
    let decl = Decl {
        name: "MyStruct".to_string(),
        attrs: vec![],
        shape: Shape::Named { fields: vec![member("field", vec![])] },
    };
    assert_eq!(run_err(decl, &attrs), DocError::NotSum);
}

#[test]
fn attr_gen_attrs_rejects_memberless_shape() {
    let attrs = parse_attrs(vec![pair(
        "gen_attr",
        ValueExpr::Str { value: "error({doc})".to_string() },
    )]);
    let decl = Decl {
        name: "MyUnit".to_string(),
        attrs: vec![doc_attr(" Some documentation")],
        shape: Shape::Opaque,
    };
    assert_eq!(run_err(decl, &attrs), DocError::NoMembers);
}

#[test]
fn attr_gen_attrs_rejects_unparsable_template() {
    let attrs = parse_attrs(vec![pair(
        "gen_attr",
        ValueExpr::Str { value: "???".to_string() },
    )]);
    assert_eq!(run_err(error_enum(), &attrs), DocError::TemplateCount { count: 0 });
}

#[test]
fn attr_gen_attrs_rejects_multiple_items() {
    let attrs = parse_attrs(vec![pair(
        "gen_attr",
        ValueExpr::Str { value: "first({doc}), second".to_string() },
    )]);
    assert_eq!(run_err(error_enum(), &attrs), DocError::TemplateCount { count: 2 });
}

#[test]
fn attr_gen_attrs_skips_undocumented_member() {
    let attrs = parse_attrs(vec![pair(
        "gen_attr",
        ValueExpr::Str { value: "error({doc})".to_string() },
    )]);
    let decl = Decl {
        name: "MyEnum".to_string(),
        attrs: vec![],
        shape: Shape::Sum {
            variants: vec![
                member("Documented", vec![doc_attr(" Variant documentation")]),
                member("Bare", vec![]),
            ],
        },
    };
    let expansion = run(decl, &attrs);
    match &expansion.decl.shape {
        Shape::Sum { variants } => {
            assert_eq!(variants[0].attrs.len(), 2);
            assert_key_value(last_item(&variants[0]), "error", " Variant documentation");
            assert!(variants[1].attrs.is_empty());
        }
        _ => panic!("expected the sum shape to be preserved"),
    }
}

#[test]
fn attr_rerun_generates_identical_lookups() {
    let attrs = parse_attrs(vec![pair(
        "gen_attr",
        ValueExpr::Str { value: "error({doc})".to_string() },
    )]);
    let first = run(error_enum(), &attrs);
    let first_lookup = match &first.doc_for {
        Some(g) => g,
        None => panic!("expected the lookup to be generated"),
    };
    let second = run(first.decl, &attrs);
    let second_lookup = match &second.doc_for {
        Some(g) => g,
        None => panic!("expected the lookup to be generated again"),
    };
    assert_eq!(first_lookup.doc(), second_lookup.doc());
    assert_eq!(
        first_lookup.doc_for_field("Error1"),
        second_lookup.doc_for_field("Error1")
    );
    assert_eq!(
        first_lookup.doc_for_field("Error2"),
        second_lookup.doc_for_field("Error2")
    );
}

#[test]
fn doc_dyn_trait_dispatch() {
    enum MyEnum {
        Variant1,
        Variant2,
    }

    impl doc_for::DocDyn for MyEnum {
        fn doc_dyn(&self) -> Option<String> {
            let decl = Decl {
                name: "MyEnum".to_string(),
                attrs: vec![],
                shape: Shape::Sum {
                    variants: vec![
                        member("Variant1", vec![doc_attr(" Variant documentation")]),
                        member("Variant2", vec![]),
                    ],
                },
            };
            let generated = match doc_for::doc_dyn_derive(decl) {
                Ok(g) => g,
                Err(_) => return None,
            };
            let active = match self {
                MyEnum::Variant1 => 0,
                MyEnum::Variant2 => 1,
            };
            generated.doc_dyn(active)
        }
    }

    assert_eq!(MyEnum::Variant1.doc_dyn().unwrap(), " Variant documentation");
    assert!(MyEnum::Variant2.doc_dyn().is_none());
}
