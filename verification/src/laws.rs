//! Laws of the engine: the gen-attrs skip rule and the idempotence of the
//! whole transformation, stated over the same spec functions that the
//! executable engine is proved against.

use vstd::prelude::*;
use crate::DocError;
use crate::attrs::SpecAttrs;
use crate::meta::{SpecDecl, SpecShape, SpecMember, SpecMetaItem, doc_text, doc_lines, is_doc_item};
use crate::template::{
    fill_spec, quoted, spec_parse_items, placeholder, is_ident_start, is_ident_cont,
    lemma_fill_wrapping_template, lemma_template_round_trip,
};
use crate::engine::{
    spec_arms, spec_arms_index, spec_doc_for_impl, spec_doc_impl, spec_gen_attrs,
    spec_gen_member_attrs, spec_gen_member, spec_gen_members, spec_gen_list, spec_gen_lists,
    SpecExpansion,
};

verus! {

/// The number of members a shape declares.
pub open spec fn member_count(s: SpecShape) -> nat {
    match s {
        SpecShape::Named { fields } => fields.len(),
        SpecShape::Positional { fields } => fields.len(),
        SpecShape::Overlay { fields } => fields.len(),
        SpecShape::Sum { variants } => variants.len(),
        SpecShape::Opaque => 0,
    }
}

/// The metadata items of the member at declaration position `i`.
pub open spec fn member_attrs_at(s: SpecShape, i: int) -> Seq<SpecMetaItem> {
    match s {
        SpecShape::Named { fields } => fields[i].attrs,
        SpecShape::Positional { fields } => fields[i],
        SpecShape::Overlay { fields } => fields[i].attrs,
        SpecShape::Sum { variants } => variants[i].attrs,
        SpecShape::Opaque => Seq::empty(),
    }
}

/// The gen-attrs skip rule for one member: a member with no documentation
/// items is left untouched by every template.
pub proof fn lemma_gen_member_skips_undocumented(
    m: SpecMember,
    templates: Seq<Seq<char>>,
    strip: Option<usize>,
)
    requires
        doc_lines(m.attrs).len() == 0,
    ensures
        spec_gen_member(m, templates, strip) == Result::<SpecMember, DocError>::Ok(m),
{
}

/// The gen-attrs skip rule for one positional member.
pub proof fn lemma_gen_list_skips_undocumented(
    attrs: Seq<SpecMetaItem>,
    templates: Seq<Seq<char>>,
    strip: Option<usize>,
)
    requires
        doc_lines(attrs).len() == 0,
    ensures
        spec_gen_list(attrs, templates, strip) == Result::<Seq<SpecMetaItem>, DocError>::Ok(attrs),
{
}

/// Attribute generation rewrites a member list pointwise, in order.
pub proof fn lemma_gen_members_pointwise(
    ms: Seq<SpecMember>,
    t: Seq<Seq<char>>,
    s: Option<usize>,
    ms2: Seq<SpecMember>,
)
    requires
        spec_gen_members(ms, t, s) == Result::<Seq<SpecMember>, DocError>::Ok(ms2),
    ensures
        ms2.len() == ms.len(),
        forall|i: int| 0 <= i < ms.len() ==> spec_gen_member(ms[i], t, s) == Result::<
            SpecMember,
            DocError,
        >::Ok(#[trigger] ms2[i]),
    decreases ms.len(),
{
    if ms.len() == 0 {
        assert(ms2 =~= Seq::<SpecMember>::empty());
    } else {
        match spec_gen_member(ms.first(), t, s) {
            Result::Ok(m2) => {
                match spec_gen_members(ms.drop_first(), t, s) {
                    Result::Ok(rest) => {
                        lemma_gen_members_pointwise(ms.drop_first(), t, s, rest);
                        assert(ms2 == seq![m2] + rest);
                        assert forall|i: int| 0 <= i < ms.len() implies spec_gen_member(ms[i], t, s)
                            == Result::<SpecMember, DocError>::Ok(#[trigger] ms2[i]) by {
                            if i == 0 {
                                assert(ms2[0] == m2);
                                assert(ms[0] == ms.first());
                            } else {
                                assert(ms2[i] == rest[i - 1]);
                                assert(ms.drop_first()[i - 1] == ms[i]);
                            }
                        }
                    },
                    Result::Err(_) => {
                        assert(false);
                    },
                }
            },
            Result::Err(_) => {
                assert(false);
            },
        }
    }
}

/// Attribute generation rewrites a positional member list pointwise.
pub proof fn lemma_gen_lists_pointwise(
    ls: Seq<Seq<SpecMetaItem>>,
    t: Seq<Seq<char>>,
    s: Option<usize>,
    ls2: Seq<Seq<SpecMetaItem>>,
)
    requires
        spec_gen_lists(ls, t, s) == Result::<Seq<Seq<SpecMetaItem>>, DocError>::Ok(ls2),
    ensures
        ls2.len() == ls.len(),
        forall|i: int| 0 <= i < ls.len() ==> spec_gen_list(ls[i], t, s) == Result::<
            Seq<SpecMetaItem>,
            DocError,
        >::Ok(#[trigger] ls2[i]),
    decreases ls.len(),
{
    if ls.len() == 0 {
        assert(ls2 =~= Seq::<Seq<SpecMetaItem>>::empty());
    } else {
        match spec_gen_list(ls.first(), t, s) {
            Result::Ok(a2) => {
                match spec_gen_lists(ls.drop_first(), t, s) {
                    Result::Ok(rest) => {
                        lemma_gen_lists_pointwise(ls.drop_first(), t, s, rest);
                        assert(ls2 == seq![a2] + rest);
                        assert forall|i: int| 0 <= i < ls.len() implies spec_gen_list(ls[i], t, s)
                            == Result::<Seq<SpecMetaItem>, DocError>::Ok(#[trigger] ls2[i]) by {
                            if i == 0 {
                                assert(ls2[0] == a2);
                                assert(ls[0] == ls.first());
                            } else {
                                assert(ls2[i] == rest[i - 1]);
                                assert(ls.drop_first()[i - 1] == ls[i]);
                            }
                        }
                    },
                    Result::Err(_) => {
                        assert(false);
                    },
                }
            },
            Result::Err(_) => {
                assert(false);
            },
        }
    }
}

/// The gen-attrs skip rule: in a successfully rewritten declaration, a
/// member that had zero documentation items stands exactly as it was
/// declared — it receives zero generated attributes for every template —
/// even while documented members of the same declaration receive items.
pub proof fn lemma_gen_attrs_skips_undocumented(
    d: SpecDecl,
    templates: Seq<Seq<char>>,
    strip: Option<usize>,
    d2: SpecDecl,
    i: int,
)
    requires
        spec_gen_attrs(d, templates, strip) == Result::<SpecDecl, DocError>::Ok(d2),
        0 <= i < member_count(d.shape),
        doc_lines(member_attrs_at(d.shape, i)).len() == 0,
    ensures
        member_count(d2.shape) == member_count(d.shape),
        member_attrs_at(d2.shape, i) == member_attrs_at(d.shape, i),
{
    match d.shape {
        SpecShape::Named { fields } => {
            if let Result::Ok(f2) = spec_gen_members(fields, templates, strip) {
                lemma_gen_members_pointwise(fields, templates, strip, f2);
                lemma_gen_member_skips_undocumented(fields[i], templates, strip);
            } else {
                assert(false);
            }
        },
        SpecShape::Positional { fields } => {
            if let Result::Ok(f2) = spec_gen_lists(fields, templates, strip) {
                lemma_gen_lists_pointwise(fields, templates, strip, f2);
                lemma_gen_list_skips_undocumented(fields[i], templates, strip);
            } else {
                assert(false);
            }
        },
        SpecShape::Overlay { fields } => {
            if let Result::Ok(f2) = spec_gen_members(fields, templates, strip) {
                lemma_gen_members_pointwise(fields, templates, strip, f2);
                lemma_gen_member_skips_undocumented(fields[i], templates, strip);
            } else {
                assert(false);
            }
        },
        SpecShape::Sum { variants } => {
            if let Result::Ok(v2) = spec_gen_members(variants, templates, strip) {
                lemma_gen_members_pointwise(variants, templates, strip, v2);
                lemma_gen_member_skips_undocumented(variants[i], templates, strip);
            } else {
                assert(false);
            }
        },
        SpecShape::Opaque => {
            assert(false);
        },
    }
}

/// Whether one filled template yields only non-documentation items for
/// documentation text `doc`.
pub open spec fn template_yields_non_doc(t: Seq<char>, doc: Seq<char>) -> bool {
    match spec_parse_items(fill_spec(t, quoted(doc))) {
        Option::Some(items) => forall|k: int|
            0 <= k < items.len() ==> !is_doc_item(#[trigger] items[k]),
        Option::None => true,
    }
}

/// Whether every template yields only non-documentation items for `doc`.
pub open spec fn templates_yield_non_doc(ts: Seq<Seq<char>>, doc: Seq<char>) -> bool {
    forall|j: int| 0 <= j < ts.len() ==> template_yields_non_doc(#[trigger] ts[j], doc)
}

/// Whether, for every documented member of `d`, the templates yield only
/// non-documentation items.
pub open spec fn decl_templates_non_doc(
    d: SpecDecl,
    ts: Seq<Seq<char>>,
    strip: Option<usize>,
) -> bool {
    forall|i: int|
        0 <= i < member_count(d.shape) ==> (match doc_text(
            #[trigger] member_attrs_at(d.shape, i),
            strip,
        ) {
            Option::Some(doc) => templates_yield_non_doc(ts, doc),
            Option::None => true,
        })
}

/// A template of the form `name({doc})`, where `name` is an identifier
/// other than the documentation marker, yields for every documentation
/// text exactly one generated attribute, carrying the text verbatim; in
/// particular it never synthesizes a documentation item, so it meets the
/// proviso of [`lemma_engine_idempotent`] outright.
pub proof fn lemma_wrapping_template_non_doc(k: Seq<char>, d: Seq<char>)
    requires
        k.len() > 0,
        is_ident_start(k[0]),
        forall|j: int| 0 <= j < k.len() ==> is_ident_cont(k[j]),
        k != "doc"@,
    ensures
        spec_parse_items(fill_spec(k + seq!['('] + placeholder() + seq![')'], quoted(d)))
            == Option::Some(seq![SpecMetaItem::KeyValue { key: k, value: d }]),
        template_yields_non_doc(k + seq!['('] + placeholder() + seq![')'], d),
{
    lemma_fill_wrapping_template(k, quoted(d));
    lemma_template_round_trip(k, d);
    let items = seq![SpecMetaItem::KeyValue { key: k, value: d }];
    assert(!is_doc_item(items[0]));
}

/// When every template yields only non-documentation items, attribute
/// generation preserves the documentation lines of the member it rewrote.
pub proof fn lemma_gen_member_attrs_preserves_doc(
    attrs: Seq<SpecMetaItem>,
    doc: Seq<char>,
    ts: Seq<Seq<char>>,
    a2: Seq<SpecMetaItem>,
)
    requires
        spec_gen_member_attrs(attrs, doc, ts) == Result::<Seq<SpecMetaItem>, DocError>::Ok(a2),
        templates_yield_non_doc(ts, doc),
    ensures
        doc_lines(a2) == doc_lines(attrs),
    decreases ts.len(),
{
    if ts.len() == 0 {
    } else {
        match spec_parse_items(fill_spec(ts.first(), quoted(doc))) {
            Option::Some(items) => {
                assert(ts.first() == ts[0]);
                assert(template_yields_non_doc(ts[0], doc));
                assert(items.len() == 1);
                assert(!is_doc_item(items[0]));
                assert((attrs.push(items[0])).drop_last() =~= attrs);
                assert(doc_lines(attrs.push(items[0])) == doc_lines(attrs));
                assert forall|j: int|
                    0 <= j < ts.drop_first().len() implies template_yields_non_doc(
                    #[trigger] ts.drop_first()[j],
                    doc,
                ) by {
                    assert(ts.drop_first()[j] == ts[j + 1]);
                }
                lemma_gen_member_attrs_preserves_doc(
                    attrs.push(items[0]),
                    doc,
                    ts.drop_first(),
                    a2,
                );
            },
            Option::None => {
                assert(false);
            },
        }
    }
}

/// Whether attribute generation succeeds depends only on the
/// documentation text and the templates, never on the items already
/// attached to the member.
pub proof fn lemma_gen_member_attrs_ok_independent(
    a1: Seq<SpecMetaItem>,
    a2: Seq<SpecMetaItem>,
    doc: Seq<char>,
    ts: Seq<Seq<char>>,
)
    ensures
        (spec_gen_member_attrs(a1, doc, ts) is Ok) == (spec_gen_member_attrs(a2, doc, ts) is Ok),
    decreases ts.len(),
{
    if ts.len() == 0 {
    } else {
        match spec_parse_items(fill_spec(ts.first(), quoted(doc))) {
            Option::Some(items) => {
                if items.len() == 1 {
                    lemma_gen_member_attrs_ok_independent(
                        a1.push(items[0]),
                        a2.push(items[0]),
                        doc,
                        ts.drop_first(),
                    );
                }
            },
            Option::None => {},
        }
    }
}

/// Re-running generation on an already rewritten member extracts the same
/// name and documentation text, and succeeds again.
pub proof fn lemma_gen_member_again(
    m: SpecMember,
    ts: Seq<Seq<char>>,
    strip: Option<usize>,
    m2: SpecMember,
)
    requires
        spec_gen_member(m, ts, strip) == Result::<SpecMember, DocError>::Ok(m2),
        match doc_text(m.attrs, strip) {
            Option::Some(doc) => templates_yield_non_doc(ts, doc),
            Option::None => true,
        },
    ensures
        m2.name == m.name,
        doc_text(m2.attrs, strip) == doc_text(m.attrs, strip),
        spec_gen_member(m2, ts, strip) is Ok,
{
    match doc_text(m.attrs, strip) {
        Option::None => {
        },
        Option::Some(doc) => {
            match spec_gen_member_attrs(m.attrs, doc, ts) {
                Result::Ok(a2) => {
                    lemma_gen_member_attrs_preserves_doc(m.attrs, doc, ts, a2);
                    lemma_gen_member_attrs_ok_independent(m2.attrs, m.attrs, doc, ts);
                },
                Result::Err(_) => {
                    assert(false);
                },
            }
        },
    }
}

/// Re-running generation on an already rewritten positional member
/// extracts the same documentation text and succeeds again.
pub proof fn lemma_gen_list_again(
    attrs: Seq<SpecMetaItem>,
    ts: Seq<Seq<char>>,
    strip: Option<usize>,
    a2: Seq<SpecMetaItem>,
)
    requires
        spec_gen_list(attrs, ts, strip) == Result::<Seq<SpecMetaItem>, DocError>::Ok(a2),
        match doc_text(attrs, strip) {
            Option::Some(doc) => templates_yield_non_doc(ts, doc),
            Option::None => true,
        },
    ensures
        doc_text(a2, strip) == doc_text(attrs, strip),
        spec_gen_list(a2, ts, strip) is Ok,
{
    match doc_text(attrs, strip) {
        Option::None => {
        },
        Option::Some(doc) => {
            match spec_gen_member_attrs(attrs, doc, ts) {
                Result::Ok(_) => {
                    lemma_gen_member_attrs_preserves_doc(attrs, doc, ts, a2);
                    lemma_gen_member_attrs_ok_independent(a2, attrs, doc, ts);
                },
                Result::Err(_) => {
                    assert(false);
                },
            }
        },
    }
}

/// Re-running generation on a rewritten member list succeeds and leaves
/// every member's name and documentation text unchanged.
pub proof fn lemma_gen_members_again(
    ms: Seq<SpecMember>,
    ts: Seq<Seq<char>>,
    strip: Option<usize>,
    ms2: Seq<SpecMember>,
)
    requires
        spec_gen_members(ms, ts, strip) == Result::<Seq<SpecMember>, DocError>::Ok(ms2),
        forall|i: int|
            0 <= i < ms.len() ==> (match doc_text(#[trigger] ms[i].attrs, strip) {
                Option::Some(doc) => templates_yield_non_doc(ts, doc),
                Option::None => true,
            }),
    ensures
        ms2.len() == ms.len(),
        forall|i: int|
            0 <= i < ms.len() ==> (#[trigger] ms2[i]).name == ms[i].name && doc_text(
                ms2[i].attrs,
                strip,
            ) == doc_text(ms[i].attrs, strip),
        spec_gen_members(ms2, ts, strip) is Ok,
    decreases ms.len(),
{
    if ms.len() == 0 {
        assert(ms2 =~= Seq::<SpecMember>::empty());
    } else {
        match spec_gen_member(ms.first(), ts, strip) {
            Result::Ok(m2) => {
                match spec_gen_members(ms.drop_first(), ts, strip) {
                    Result::Ok(rest) => {
                        assert(ms[0] == ms.first());
                        lemma_gen_member_again(ms.first(), ts, strip, m2);
                        assert forall|i: int|
                            0 <= i < ms.drop_first().len() implies (match doc_text(
                            #[trigger] ms.drop_first()[i].attrs,
                            strip,
                        ) {
                            Option::Some(doc) => templates_yield_non_doc(ts, doc),
                            Option::None => true,
                        }) by {
                            assert(ms.drop_first()[i] == ms[i + 1]);
                        }
                        lemma_gen_members_again(ms.drop_first(), ts, strip, rest);
                        assert(ms2 == seq![m2] + rest);
                        assert forall|i: int|
                            0 <= i < ms.len() implies (#[trigger] ms2[i]).name == ms[i].name
                            && doc_text(ms2[i].attrs, strip) == doc_text(ms[i].attrs, strip) by {
                            if i == 0 {
                                assert(ms2[0] == m2);
                            } else {
                                assert(ms2[i] == rest[i - 1]);
                                assert(ms.drop_first()[i - 1] == ms[i]);
                            }
                        }
                        assert(ms2.first() == m2);
                        assert(ms2.drop_first() =~= rest);
                    },
                    Result::Err(_) => {
                        assert(false);
                    },
                }
            },
            Result::Err(_) => {
                assert(false);
            },
        }
    }
}

/// Re-running generation on a rewritten positional member list succeeds
/// and leaves every member's documentation text unchanged.
pub proof fn lemma_gen_lists_again(
    ls: Seq<Seq<SpecMetaItem>>,
    ts: Seq<Seq<char>>,
    strip: Option<usize>,
    ls2: Seq<Seq<SpecMetaItem>>,
)
    requires
        spec_gen_lists(ls, ts, strip) == Result::<Seq<Seq<SpecMetaItem>>, DocError>::Ok(ls2),
        forall|i: int|
            0 <= i < ls.len() ==> (match doc_text(#[trigger] ls[i], strip) {
                Option::Some(doc) => templates_yield_non_doc(ts, doc),
                Option::None => true,
            }),
    ensures
        ls2.len() == ls.len(),
        forall|i: int|
            0 <= i < ls.len() ==> doc_text(#[trigger] ls2[i], strip) == doc_text(ls[i], strip),
        spec_gen_lists(ls2, ts, strip) is Ok,
    decreases ls.len(),
{
    if ls.len() == 0 {
        assert(ls2 =~= Seq::<Seq<SpecMetaItem>>::empty());
    } else {
        match spec_gen_list(ls.first(), ts, strip) {
            Result::Ok(a2) => {
                match spec_gen_lists(ls.drop_first(), ts, strip) {
                    Result::Ok(rest) => {
                        assert(ls[0] == ls.first());
                        lemma_gen_list_again(ls.first(), ts, strip, a2);
                        assert forall|i: int|
                            0 <= i < ls.drop_first().len() implies (match doc_text(
                            #[trigger] ls.drop_first()[i],
                            strip,
                        ) {
                            Option::Some(doc) => templates_yield_non_doc(ts, doc),
                            Option::None => true,
                        }) by {
                            assert(ls.drop_first()[i] == ls[i + 1]);
                        }
                        lemma_gen_lists_again(ls.drop_first(), ts, strip, rest);
                        assert(ls2 == seq![a2] + rest);
                        assert forall|i: int|
                            0 <= i < ls.len() implies doc_text(#[trigger] ls2[i], strip)
                            == doc_text(ls[i], strip) by {
                            if i == 0 {
                                assert(ls2[0] == a2);
                            } else {
                                assert(ls2[i] == rest[i - 1]);
                                assert(ls.drop_first()[i - 1] == ls[i]);
                            }
                        }
                        assert(ls2.first() == a2);
                        assert(ls2.drop_first() =~= rest);
                    },
                    Result::Err(_) => {
                        assert(false);
                    },
                }
            },
            Result::Err(_) => {
                assert(false);
            },
        }
    }
}

/// Idempotence of the engine: run again on the declaration it re-emitted,
/// with the same options, it succeeds and generates identical lookup
/// artifacts — no hidden state feeds a second run. The one proviso is
/// that no template synthesizes a documentation item, since such an item
/// becomes part of what a re-run extracts.
pub proof fn lemma_engine_idempotent(d: SpecDecl, a: SpecAttrs, e: SpecExpansion)
    requires
        spec_doc_impl(d, a) == Result::<SpecExpansion, DocError>::Ok(e),
        decl_templates_non_doc(d, a.gen_attrs, a.strip),
    ensures
        spec_doc_impl(e.decl, a) is Ok,
        spec_doc_impl(e.decl, a) matches Result::Ok(e2) ==> e2.doc_for == e.doc_for && e2.doc_dyn
            == e.doc_dyn,
{
    if a.gen_attrs.len() == 0 {
        assert(e.decl == d);
    } else {
        match spec_gen_attrs(d, a.gen_attrs, a.strip) {
            Result::Ok(d2) => {
                assert(e.decl == d2);
                assert(d2.attrs == d.attrs);
                match d.shape {
                    SpecShape::Named { fields } => {
                        if let Result::Ok(f2) = spec_gen_members(fields, a.gen_attrs, a.strip) {
                            assert(d2.shape == (SpecShape::Named { fields: f2 }));
                            assert forall|i: int|
                                0 <= i < fields.len() implies (match doc_text(
                                #[trigger] fields[i].attrs,
                                a.strip,
                            ) {
                                Option::Some(doc) => templates_yield_non_doc(a.gen_attrs, doc),
                                Option::None => true,
                            }) by {
                                assert(member_attrs_at(d.shape, i) == fields[i].attrs);
                            }
                            lemma_gen_members_again(fields, a.gen_attrs, a.strip, f2);
                            assert(spec_arms(f2, a.strip) =~= spec_arms(fields, a.strip));
                            assert(spec_doc_for_impl(d2, a.strip) =~= spec_doc_for_impl(
                                d,
                                a.strip,
                            ));
                        } else {
                            assert(false);
                        }
                    },
                    SpecShape::Positional { fields } => {
                        if let Result::Ok(f2) = spec_gen_lists(fields, a.gen_attrs, a.strip) {
                            assert(d2.shape == (SpecShape::Positional { fields: f2 }));
                            assert forall|i: int|
                                0 <= i < fields.len() implies (match doc_text(
                                #[trigger] fields[i],
                                a.strip,
                            ) {
                                Option::Some(doc) => templates_yield_non_doc(a.gen_attrs, doc),
                                Option::None => true,
                            }) by {
                                assert(member_attrs_at(d.shape, i) == fields[i]);
                            }
                            lemma_gen_lists_again(fields, a.gen_attrs, a.strip, f2);
                            assert(spec_arms_index(f2, a.strip) =~= spec_arms_index(
                                fields,
                                a.strip,
                            ));
                            assert(spec_doc_for_impl(d2, a.strip) =~= spec_doc_for_impl(
                                d,
                                a.strip,
                            ));
                        } else {
                            assert(false);
                        }
                    },
                    SpecShape::Overlay { fields } => {
                        if let Result::Ok(f2) = spec_gen_members(fields, a.gen_attrs, a.strip) {
                            assert(d2.shape == (SpecShape::Overlay { fields: f2 }));
                            assert forall|i: int|
                                0 <= i < fields.len() implies (match doc_text(
                                #[trigger] fields[i].attrs,
                                a.strip,
                            ) {
                                Option::Some(doc) => templates_yield_non_doc(a.gen_attrs, doc),
                                Option::None => true,
                            }) by {
                                assert(member_attrs_at(d.shape, i) == fields[i].attrs);
                            }
                            lemma_gen_members_again(fields, a.gen_attrs, a.strip, f2);
                            assert(spec_arms(f2, a.strip) =~= spec_arms(fields, a.strip));
                            assert(spec_doc_for_impl(d2, a.strip) =~= spec_doc_for_impl(
                                d,
                                a.strip,
                            ));
                        } else {
                            assert(false);
                        }
                    },
                    SpecShape::Sum { variants } => {
                        if let Result::Ok(v2) = spec_gen_members(variants, a.gen_attrs, a.strip) {
                            assert(d2.shape == (SpecShape::Sum { variants: v2 }));
                            assert forall|i: int|
                                0 <= i < variants.len() implies (match doc_text(
                                #[trigger] variants[i].attrs,
                                a.strip,
                            ) {
                                Option::Some(doc) => templates_yield_non_doc(a.gen_attrs, doc),
                                Option::None => true,
                            }) by {
                                assert(member_attrs_at(d.shape, i) == variants[i].attrs);
                            }
                            lemma_gen_members_again(variants, a.gen_attrs, a.strip, v2);
                            assert(spec_arms(v2, a.strip) =~= spec_arms(variants, a.strip));
                            assert(spec_doc_for_impl(d2, a.strip) =~= spec_doc_for_impl(
                                d,
                                a.strip,
                            ));
                        } else {
                            assert(false);
                        }
                    },
                    SpecShape::Opaque => {
                        assert(false);
                    },
                }
            },
            Result::Err(_) => {
                assert(false);
            },
        }
    }
}

} // verus!
