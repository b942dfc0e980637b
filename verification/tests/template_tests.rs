#![allow(dead_code)]

use doc_for::{fill_template, parse_meta_items, quote_lit, MetaItem};

fn assert_key_value(item: &MetaItem, key: &str, value: &str) {
    match item {
        MetaItem::KeyValue { key: k, value: v } => {
            assert_eq!(k, key);
            assert_eq!(v, value);
        }
        MetaItem::Path { .. } => panic!("expected a key-value metadata item"),
    }
}

#[test]
fn quote_lit_wraps_in_quotes() {
    assert_eq!(quote_lit("plain text"), "\"plain text\"");
}

#[test]
fn quote_lit_escapes_special_characters() {
    assert_eq!(quote_lit("a\"b\\c"), "\"a\\\"b\\\\c\"");
    assert_eq!(quote_lit("line\nbreak\ttab\rret"), "\"line\\nbreak\\ttab\\rret\"");
}

#[test]
fn fill_template_replaces_every_placeholder() {
    assert_eq!(fill_template("error({doc})", "\"msg\""), "error(\"msg\")");
    assert_eq!(fill_template("a={doc},b={doc}", "x"), "a=x,b=x");
    assert_eq!(fill_template("no placeholder", "x"), "no placeholder");
}

#[test]
fn parse_meta_items_reads_each_form() {
    let items = parse_meta_items("marker").unwrap();
    assert_eq!(items.len(), 1);
    match &items[0] {
        MetaItem::Path { path } => assert_eq!(path, "marker"),
        MetaItem::KeyValue { .. } => panic!("expected a bare marker"),
    }

    let items = parse_meta_items(" key = \"value\" ").unwrap();
    assert_eq!(items.len(), 1);
    assert_key_value(&items[0], "key", "value");

    let items = parse_meta_items("error( \"msg\" )").unwrap();
    assert_eq!(items.len(), 1);
    assert_key_value(&items[0], "error", "msg");
}

#[test]
fn parse_meta_items_reads_a_comma_separated_list() {
    let items = parse_meta_items("a, b = \"1\", c(\"2\")").unwrap();
    assert_eq!(items.len(), 3);
    assert_key_value(&items[1], "b", "1");
    assert_key_value(&items[2], "c", "2");
}

#[test]
fn parse_meta_items_accepts_the_empty_list() {
    let items = parse_meta_items("   ").unwrap();
    assert!(items.is_empty());
}

#[test]
fn parse_meta_items_rejects_malformed_input() {
    assert!(parse_meta_items("???").is_none());
    assert!(parse_meta_items("key = ").is_none());
    assert!(parse_meta_items("key = \"unterminated").is_none());
    assert!(parse_meta_items("a,, b").is_none());
    assert!(parse_meta_items("a b").is_none());
    assert!(parse_meta_items("k = \"bad \\x escape\"").is_none());
}

#[test]
fn quoted_literal_round_trips_through_the_parser() {
    let original = "tricky \"quoted\" \\ text\nwith\tcontrol";
    let filled = fill_template("note({doc})", &quote_lit(original));
    let items = parse_meta_items(&filled).unwrap();
    assert_eq!(items.len(), 1);
    assert_key_value(&items[0], "note", original);
}
