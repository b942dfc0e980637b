#![allow(dead_code)]

use doc_for::{parse_bool, parse_option_usize, parse_string, Attrs, DocError, MetaPair, ValueExpr};

fn pair(key: &str, value: ValueExpr) -> MetaPair {
    MetaPair { path: vec![key.to_string()], value }
}

fn ident(name: &str) -> ValueExpr {
    ValueExpr::Ident { name: name.to_string() }
}

fn string(value: &str) -> ValueExpr {
    ValueExpr::Str { value: value.to_string() }
}

fn parse_err(pairs: &Vec<MetaPair>) -> DocError {
    match Attrs::parse(pairs) {
        Ok(_) => panic!("expected the option list to be rejected"),
        Err(e) => e,
    }
}

#[test]
fn test_parse_option_usize() {
    assert_eq!(
        parse_option_usize(&ident("all")).unwrap(),
        None,
        "Expected `None` for `all`"
    );
    assert_eq!(
        parse_option_usize(&ValueExpr::Int { value: 5 }).unwrap(),
        Some(5),
        "Expected `Some(5)` for `5`"
    );
    assert!(
        parse_option_usize(&ValueExpr::Bool { value: true }).is_err(),
        "Expected error for `true`"
    );
}

#[test]
fn test_parse_bool() {
    assert_eq!(
        parse_bool(&ValueExpr::Bool { value: true }).unwrap(),
        true,
        "Expected `true`"
    );
    assert_eq!(
        parse_bool(&ValueExpr::Bool { value: false }).unwrap(),
        false,
        "Expected `false`"
    );
    assert!(parse_bool(&ValueExpr::Int { value: 5 }).is_err(), "Expected error for `5`");
}

#[test]
fn test_parse_string() {
    assert_eq!(
        parse_string(&string("hello")).unwrap(),
        "hello".to_string(),
        "Expected `\"hello\"`"
    );
    assert!(parse_string(&ValueExpr::Int { value: 5 }).is_err(), "Expected error for `5`");
}

#[test]
fn test_parse_attrs() {
    let pairs = vec![
        pair("strip", ident("all")),
        pair("doc_for", ValueExpr::Bool { value: false }),
        pair("doc_dyn", ValueExpr::Bool { value: true }),
        pair("gen_attr", string("a")),
        pair("gen_attr", string("b")),
    ];
    let attrs = match Attrs::parse(&pairs) {
        Ok(a) => a,
        Err(e) => panic!("expected the option list to parse: {:?}", e),
    };
    assert_eq!(attrs.strip, None);
    assert_eq!(attrs.doc_for, false);
    assert_eq!(attrs.doc_dyn, true);
    assert_eq!(attrs.gen_attrs, vec!["a".to_string(), "b".to_string()]);
}

#[test]
fn parse_attrs_defaults() {
    let attrs = match Attrs::parse(&vec![]) {
        Ok(a) => a,
        Err(e) => panic!("expected the empty option list to parse: {:?}", e),
    };
    assert_eq!(attrs.strip, Some(0));
    assert_eq!(attrs.doc_for, true);
    assert_eq!(attrs.doc_dyn, false);
    assert!(attrs.gen_attrs.is_empty());
}

#[test]
fn parse_attrs_unknown_key() {
    let pairs = vec![pair("unknown", ValueExpr::Bool { value: true })];
    assert_eq!(parse_err(&pairs), DocError::UnknownKey);
}

#[test]
fn parse_attrs_non_identifier_key() {
    let pairs = vec![MetaPair {
        path: vec!["a".to_string(), "b".to_string()],
        value: ValueExpr::Bool { value: true },
    }];
    assert_eq!(parse_err(&pairs), DocError::ExpectedIdent);
}

#[test]
fn parse_attrs_bad_strip_value() {
    let pairs = vec![pair("strip", ValueExpr::Bool { value: true })];
    assert_eq!(parse_err(&pairs), DocError::ExpectedCountOrAll);
    let pairs = vec![pair("strip", ident("some"))];
    assert_eq!(parse_err(&pairs), DocError::ExpectedCountOrAll);
}

#[test]
fn parse_attrs_bad_bool_value() {
    let pairs = vec![pair("doc_for", ValueExpr::Int { value: 5 })];
    assert_eq!(parse_err(&pairs), DocError::ExpectedBool);
    let pairs = vec![pair("doc_dyn", string("yes"))];
    assert_eq!(parse_err(&pairs), DocError::ExpectedBool);
}

#[test]
fn parse_attrs_bad_template_value() {
    let pairs = vec![pair("gen_attr", ValueExpr::Int { value: 5 })];
    assert_eq!(parse_err(&pairs), DocError::ExpectedString);
}

#[test]
fn parse_attrs_last_key_wins() {
    let pairs = vec![
        pair("strip", ValueExpr::Int { value: 2 }),
        pair("strip", ident("all")),
    ];
    let attrs = match Attrs::parse(&pairs) {
        Ok(a) => a,
        Err(e) => panic!("expected the option list to parse: {:?}", e),
    };
    assert_eq!(attrs.strip, None);
}
