#![allow(dead_code)]

use doc_for::{doc_impl, get_doc, Attrs, Decl, Member, MetaItem, Shape};

fn doc_attr(line: &str) -> MetaItem {
    MetaItem::KeyValue { key: "doc".to_string(), value: line.to_string() }
}

fn member(name: &str, attrs: Vec<MetaItem>) -> Member {
    Member { name: name.to_string(), attrs }
}

#[test]
fn doc_text_joins_lines_in_source_order() {
    let attrs = vec![doc_attr(" first line"), doc_attr(" second line"), doc_attr("")];
    assert_eq!(get_doc(&attrs, Some(0)).unwrap(), " first line\n second line\n");
}

#[test]
fn doc_text_absent_without_doc_items() {
    let attrs = vec![
        MetaItem::Path { path: "derive".to_string() },
        MetaItem::KeyValue { key: "serde".to_string(), value: "rename".to_string() },
    ];
    assert!(get_doc(&attrs, Some(0)).is_none());
    let empty: Vec<MetaItem> = vec![];
    assert!(get_doc(&empty, Some(0)).is_none());
}

#[test]
fn doc_text_ignores_non_doc_items_between_lines() {
    let attrs = vec![
        doc_attr(" first"),
        MetaItem::Path { path: "inline".to_string() },
        doc_attr(" second"),
    ];
    assert_eq!(get_doc(&attrs, Some(0)).unwrap(), " first\n second");
}

#[test]
fn strip_zero_preserves_lines_as_authored() {
    let attrs = vec![doc_attr("   indented"), doc_attr("\t tabbed")];
    assert_eq!(get_doc(&attrs, Some(0)).unwrap(), "   indented\n\t tabbed");
}

#[test]
fn strip_count_clamps_to_the_whitespace_run() {
    let attrs = vec![doc_attr("    four"), doc_attr(" one"), doc_attr("none")];
    assert_eq!(get_doc(&attrs, Some(2)).unwrap(), "  four\none\nnone");
}

#[test]
fn strip_all_removes_the_whole_run() {
    let attrs = vec![doc_attr("    deep"), doc_attr(" shallow"), doc_attr("bare")];
    assert_eq!(get_doc(&attrs, None).unwrap(), "deep\nshallow\nbare");
}

#[test]
fn strip_all_empties_a_whitespace_only_line() {
    let attrs = vec![doc_attr("   "), doc_attr("  text")];
    assert_eq!(get_doc(&attrs, None).unwrap(), "\ntext");
}

#[test]
fn strip_leaves_interior_whitespace_untouched() {
    let attrs = vec![doc_attr("  a  b  ")];
    assert_eq!(get_doc(&attrs, None).unwrap(), "a  b  ");
}

#[test]
fn end_to_end_default_options() {
    let attrs = match Attrs::parse(&vec![]) {
        Ok(a) => a,
        Err(e) => panic!("expected the empty option list to parse: {:?}", e),
    };
    let decl = Decl {
        name: "MyStruct".to_string(),
        attrs: vec![doc_attr(" Some documentation")],
        shape: Shape::Named {
            fields: vec![
                member("field", vec![doc_attr(" Field documentation")]),
                member("not_documented", vec![]),
            ],
        },
    };
    let expansion = match doc_impl(decl, &attrs) {
        Ok(e) => e,
        Err(e) => panic!("expected the invocation to succeed: {:?}", e),
    };
    let generated = match &expansion.doc_for {
        Some(g) => g,
        None => panic!("expected the lookup to be generated by default"),
    };
    assert_eq!(generated.doc().unwrap(), " Some documentation");
    assert_eq!(generated.doc_for_field("field").unwrap(), " Field documentation");
    assert!(generated.doc_for_field("not_documented").is_none());
}
