//! Attribute templates: rendering documentation text as a quoted string
//! literal, substituting it for the placeholder of a template, and parsing
//! the filled template back into metadata items.

use vstd::prelude::*;
use crate::meta::{MetaItem, SpecMetaItem, items_view};
use crate::text::{
    ws_run, skip_ws, skip_ws_exec, ws_run_exec, is_ws_char, lemma_ws_run_stops, lemma_skip_ws_len,
};

verus! {

/// The placeholder that a template replaces with the quoted documentation
/// text.
pub open spec fn placeholder() -> Seq<char> {
    seq!['{', 'd', 'o', 'c', '}']
}

/// How one character appears inside a quoted string literal.
pub open spec fn escape_char(c: char) -> Seq<char> {
    if c == '"' {
        seq!['\\', '"']
    } else if c == '\\' {
        seq!['\\', '\\']
    } else if c == '\n' {
        seq!['\\', 'n']
    } else if c == '\r' {
        seq!['\\', 'r']
    } else if c == '\t' {
        seq!['\\', 't']
    } else {
        seq![c]
    }
}

/// A character sequence escaped for the inside of a string literal.
pub open spec fn escape_seq(s: Seq<char>) -> Seq<char>
    decreases s.len(),
{
    if s.len() == 0 {
        Seq::empty()
    } else {
        escape_seq(s.drop_last()) + escape_char(s.last())
    }
}

/// `s` rendered as a quoted string literal.
pub open spec fn quoted(s: Seq<char>) -> Seq<char> {
    seq!['"'] + escape_seq(s) + seq!['"']
}

/// Renders `s` as a quoted string literal, escaping the quote, the
/// backslash, and the newline, carriage-return and tab characters.
pub fn quote_lit(s: &str) -> (r: String)
    ensures
        r@ == quoted(s@),
{
    let mut r: String = String::from_str("\"");
    proof {
        reveal_strlit("\"");
        assert(r@ =~= seq!['"'] + escape_seq(s@.take(0)));
    }
    let len: usize = s.unicode_len();
    let mut i: usize = 0;
    while i < len
        invariant
            0 <= i <= len,
            len == s@.len(),
            r@ == seq!['"'] + escape_seq(s@.take(i as int)),
        decreases len - i,
    {
        let c = s.get_char(i);
        proof {
            assert(s@.take(i + 1 as int).drop_last() =~= s@.take(i as int));
            assert(s@.take(i + 1 as int).last() == c);
        }
        if c == '"' {
            r.append("\\\"");
            proof {
                reveal_strlit("\\\"");
                assert("\\\""@ =~= seq!['\\', '"']);
            }
        } else if c == '\\' {
            r.append("\\\\");
            proof {
                reveal_strlit("\\\\");
                assert("\\\\"@ =~= seq!['\\', '\\']);
            }
        } else if c == '\n' {
            r.append("\\n");
            proof {
                reveal_strlit("\\n");
                assert("\\n"@ =~= seq!['\\', 'n']);
            }
        } else if c == '\r' {
            r.append("\\r");
            proof {
                reveal_strlit("\\r");
                assert("\\r"@ =~= seq!['\\', 'r']);
            }
        } else if c == '\t' {
            r.append("\\t");
            proof {
                reveal_strlit("\\t");
                assert("\\t"@ =~= seq!['\\', 't']);
            }
        } else {
            let piece = s.substring_char(i, i + 1);
            r.append(piece);
            proof {
                assert(piece@ =~= seq![c]);
            }
        }
        i = i + 1;
    }
    r.append("\"");
    proof {
        reveal_strlit("\"");
        assert(s@.take(len as int) =~= s@);
        assert(r@ =~= quoted(s@));
    }
    r
}

/// `t` with every occurrence of the placeholder replaced by `rep`,
/// scanning left to right and never rescanning a replacement.
pub open spec fn fill_spec(t: Seq<char>, rep: Seq<char>) -> Seq<char>
    decreases t.len(),
{
    if t.len() >= 5 && t.take(5) == placeholder() {
        rep + fill_spec(t.skip(5), rep)
    } else if t.len() == 0 {
        Seq::empty()
    } else {
        seq![t[0]] + fill_spec(t.drop_first(), rep)
    }
}

/// Replaces every occurrence of the placeholder in `template` by `rep`.
pub fn fill_template(template: &str, rep: &str) -> (r: String)
    ensures
        r@ == fill_spec(template@, rep@),
{
    let len: usize = template.unicode_len();
    let mut r: String = String::new();
    proof {
        assert(template@.skip(0) =~= template@);
    }
    let mut i: usize = 0;
    while i < len
        invariant
            0 <= i <= len,
            len == template@.len(),
            fill_spec(template@, rep@) == r@ + fill_spec(template@.skip(i as int), rep@),
        decreases len - i,
    {
        let mut is_ph: bool = false;
        if len - i >= 5 {
            if template.get_char(i) == '{' && template.get_char(i + 1) == 'd' && template.get_char(
                i + 2,
            ) == 'o' && template.get_char(i + 3) == 'c' && template.get_char(i + 4) == '}' {
                is_ph = true;
            }
        }
        let ghost suf = template@.skip(i as int);
        if is_ph {
            proof {
                assert(suf.take(5) =~= placeholder());
                assert(suf.skip(5) =~= template@.skip(i + 5 as int));
                assert(fill_spec(suf, rep@) == rep@ + fill_spec(suf.skip(5), rep@));
            }
            r.append(rep);
            i = i + 5;
        } else {
            proof {
                assert(suf.len() > 0);
                assert(suf[0] == template@[i as int]);
                if suf.len() >= 5 && suf.take(5) == placeholder() {
                    assert(suf.take(5)[0] == suf[0]);
                    assert(suf.take(5)[1] == suf[1]);
                    assert(suf.take(5)[2] == suf[2]);
                    assert(suf.take(5)[3] == suf[3]);
                    assert(suf.take(5)[4] == suf[4]);
                    assert(suf[0] == '{' && suf[1] == 'd' && suf[2] == 'o' && suf[3] == 'c'
                        && suf[4] == '}');
                    assert(false);
                }
                assert(suf.drop_first() =~= template@.skip(i + 1 as int));
                assert(fill_spec(suf, rep@) == seq![suf[0]] + fill_spec(suf.drop_first(), rep@));
            }
            let piece = template.substring_char(i, i + 1);
            r.append(piece);
            proof {
                assert(piece@ =~= seq![template@[i as int]]);
            }
            i = i + 1;
        }
    }
    proof {
        assert(template@.skip(len as int) =~= Seq::<char>::empty());
        assert(fill_spec(Seq::<char>::empty(), rep@) == Seq::<char>::empty());
        assert(r@ =~= r@ + Seq::<char>::empty());
    }
    r
}

/// Whether `c` can start an identifier: a letter or an underscore.
pub open spec fn is_ident_start(c: char) -> bool {
    (97 <= c as u32 && c as u32 <= 122) || (65 <= c as u32 && c as u32 <= 90) || c == '_'
}

/// Whether `c` can continue an identifier: a letter, a digit or an
/// underscore.
pub open spec fn is_ident_cont(c: char) -> bool {
    is_ident_start(c) || (48 <= c as u32 && c as u32 <= 57)
}

/// The length of the leading identifier-character run of `s`.
pub open spec fn ident_run(s: Seq<char>) -> nat
    decreases s.len(),
{
    if s.len() == 0 || !is_ident_cont(s[0]) {
        0
    } else {
        (1 + ident_run(s.drop_first())) as nat
    }
}

/// The identifier run never reaches past the end, every character inside
/// it continues an identifier, and the character right after it, if any,
/// does not.
pub proof fn lemma_ident_run_stops(s: Seq<char>)
    ensures
        ident_run(s) <= s.len(),
        ident_run(s) < s.len() ==> !is_ident_cont(s[ident_run(s) as int]),
        forall|j: int| 0 <= j < ident_run(s) ==> is_ident_cont(s[j]),
    decreases s.len(),
{
    if s.len() > 0 && is_ident_cont(s[0]) {
        lemma_ident_run_stops(s.drop_first());
        assert forall|j: int| 0 <= j < ident_run(s) implies is_ident_cont(s[j]) by {
            if j > 0 {
                assert(s.drop_first()[j - 1] == s[j]);
            }
        }
    }
}

/// A count `n` that lies on identifier characters throughout and ends at
/// the end or at a non-identifier character is exactly the identifier run.
pub proof fn lemma_ident_run_is(s: Seq<char>, n: nat)
    requires
        n <= s.len(),
        forall|j: int| 0 <= j < n ==> is_ident_cont(s[j]),
        n == s.len() || !is_ident_cont(s[n as int]),
    ensures
        ident_run(s) == n,
    decreases s.len(),
{
    if s.len() == 0 {
    } else if !is_ident_cont(s[0]) {
    } else {
        let t = s.drop_first();
        assert forall|j: int| 0 <= j < n - 1 implies is_ident_cont(t[j]) by {
            assert(t[j] == s[j + 1]);
        }
        if n < s.len() {
            assert(t[n - 1] == s[n as int]);
        }
        lemma_ident_run_is(t, (n - 1) as nat);
    }
}

/// The leading identifier of `s`, if any, and the rest of the input.
pub open spec fn spec_take_ident(s: Seq<char>) -> Option<(Seq<char>, Seq<char>)> {
    if s.len() > 0 && is_ident_start(s[0]) {
        Option::Some((s.take(ident_run(s) as int), s.skip(ident_run(s) as int)))
    } else {
        Option::None
    }
}

/// A taken identifier is never empty and always leaves a shorter rest.
pub proof fn lemma_take_ident_len(s: Seq<char>)
    ensures
        spec_take_ident(s) matches Option::Some(pr) ==> pr.0.len() >= 1 && pr.1.len() < s.len(),
{
    if s.len() > 0 && is_ident_start(s[0]) {
        lemma_ident_run_stops(s);
        assert(ident_run(s) >= 1);
    }
}

/// What an escape character inside a string literal decodes to.
pub open spec fn unescape_char(c: char) -> Option<char> {
    if c == '"' {
        Option::Some('"')
    } else if c == '\\' {
        Option::Some('\\')
    } else if c == 'n' {
        Option::Some('\n')
    } else if c == 'r' {
        Option::Some('\r')
    } else if c == 't' {
        Option::Some('\t')
    } else {
        Option::None
    }
}

/// Scans the body of a string literal after its opening quote: the decoded
/// payload and whatever follows the closing quote. `None` when the literal
/// is unterminated or holds an unknown escape.
pub open spec fn spec_lit_scan(s: Seq<char>) -> Option<(Seq<char>, Seq<char>)>
    decreases s.len(),
{
    if s.len() == 0 {
        Option::None
    } else if s[0] == '"' {
        Option::Some((Seq::empty(), s.drop_first()))
    } else if s[0] == '\\' {
        if s.len() < 2 {
            Option::None
        } else {
            match unescape_char(s[1]) {
                Option::Some(u) => match spec_lit_scan(s.skip(2)) {
                    Option::Some(pr) => Option::Some((seq![u] + pr.0, pr.1)),
                    Option::None => Option::None,
                },
                Option::None => Option::None,
            }
        }
    } else {
        match spec_lit_scan(s.drop_first()) {
            Option::Some(pr) => Option::Some((seq![s[0]] + pr.0, pr.1)),
            Option::None => Option::None,
        }
    }
}

/// A scanned literal body always leaves a shorter rest.
pub proof fn lemma_lit_scan_len(s: Seq<char>)
    ensures
        spec_lit_scan(s) matches Option::Some(pr) ==> pr.1.len() < s.len(),
    decreases s.len(),
{
    if s.len() == 0 {
    } else if s[0] == '"' {
    } else if s[0] == '\\' {
        if s.len() >= 2 {
            lemma_lit_scan_len(s.skip(2));
        }
    } else {
        lemma_lit_scan_len(s.drop_first());
    }
}

/// One metadata item at the head of `s`: a bare identifier, or an
/// identifier followed by `=` or parentheses and a string literal; yields
/// the item and the rest of the input.
pub open spec fn spec_parse_item(s: Seq<char>) -> Option<(SpecMetaItem, Seq<char>)> {
    match spec_take_ident(s) {
        Option::None => Option::None,
        Option::Some(idr) => {
            let r2 = skip_ws(idr.1);
            if r2.len() > 0 && r2[0] == '=' {
                let r3 = skip_ws(r2.drop_first());
                if r3.len() > 0 && r3[0] == '"' {
                    match spec_lit_scan(r3.drop_first()) {
                        Option::Some(pr) => Option::Some(
                            (SpecMetaItem::KeyValue { key: idr.0, value: pr.0 }, pr.1),
                        ),
                        Option::None => Option::None,
                    }
                } else {
                    Option::None
                }
            } else if r2.len() > 0 && r2[0] == '(' {
                let r3 = skip_ws(r2.drop_first());
                if r3.len() > 0 && r3[0] == '"' {
                    match spec_lit_scan(r3.drop_first()) {
                        Option::Some(pr) => {
                            let r4 = skip_ws(pr.1);
                            if r4.len() > 0 && r4[0] == ')' {
                                Option::Some(
                                    (
                                        SpecMetaItem::KeyValue { key: idr.0, value: pr.0 },
                                        r4.drop_first(),
                                    ),
                                )
                            } else {
                                Option::None
                            }
                        },
                        Option::None => Option::None,
                    }
                } else {
                    Option::None
                }
            } else {
                Option::Some((SpecMetaItem::Path { path: idr.0 }, idr.1))
            }
        },
    }
}

/// A parsed item always leaves a shorter rest.
pub proof fn lemma_parse_item_len(s: Seq<char>)
    ensures
        spec_parse_item(s) matches Option::Some(pr) ==> pr.1.len() < s.len(),
{
    lemma_take_ident_len(s);
    if let Option::Some(idr) = spec_take_ident(s) {
        lemma_skip_ws_len(idr.1);
        let r2 = skip_ws(idr.1);
        if r2.len() > 0 && (r2[0] == '=' || r2[0] == '(') {
            lemma_skip_ws_len(r2.drop_first());
            let r3 = skip_ws(r2.drop_first());
            if r3.len() > 0 && r3[0] == '"' {
                lemma_lit_scan_len(r3.drop_first());
                if let Option::Some(pr) = spec_lit_scan(r3.drop_first()) {
                    lemma_skip_ws_len(pr.1);
                }
            }
        }
    }
}

/// The items of a nonempty comma-separated list that consumes all of `s`.
pub open spec fn spec_parse_items_ne(s: Seq<char>) -> Option<Seq<SpecMetaItem>>
    decreases s.len(),
    via spec_parse_items_ne_decreases
{
    match spec_parse_item(s) {
        Option::None => Option::None,
        Option::Some(pr) => {
            let r1 = skip_ws(pr.1);
            if r1.len() == 0 {
                Option::Some(seq![pr.0])
            } else if r1[0] == ',' {
                let r2 = skip_ws(r1.drop_first());
                match spec_parse_items_ne(r2) {
                    Option::Some(rest) => Option::Some(seq![pr.0] + rest),
                    Option::None => Option::None,
                }
            } else {
                Option::None
            }
        },
    }
}

#[via_fn]
proof fn spec_parse_items_ne_decreases(s: Seq<char>) {
    lemma_parse_item_len(s);
    if let Option::Some(pr) = spec_parse_item(s) {
        lemma_skip_ws_len(pr.1);
        let r1 = skip_ws(pr.1);
        if r1.len() > 0 {
            lemma_skip_ws_len(r1.drop_first());
        }
    }
}

/// The metadata items denoted by `s`: a possibly empty, comma-separated
/// list of items consuming all input; `None` when malformed.
pub open spec fn spec_parse_items(s: Seq<char>) -> Option<Seq<SpecMetaItem>> {
    let s1 = skip_ws(s);
    if s1.len() == 0 {
        Option::Some(Seq::empty())
    } else {
        spec_parse_items_ne(s1)
    }
}

/// Escaping works character by character from the front as well.
pub proof fn lemma_escape_seq_head(d: Seq<char>)
    requires
        d.len() > 0,
    ensures
        escape_seq(d) == escape_char(d[0]) + escape_seq(d.drop_first()),
    decreases d.len(),
{
    if d.len() == 1 {
        assert(d.drop_last() =~= Seq::<char>::empty());
        assert(d.drop_first() =~= Seq::<char>::empty());
        assert(escape_seq(Seq::<char>::empty()) =~= Seq::<char>::empty());
        assert(escape_seq(d) =~= escape_char(d[0]) + escape_seq(d.drop_first()));
    } else {
        let dl = d.drop_last();
        lemma_escape_seq_head(dl);
        assert(dl[0] == d[0]);
        assert(d.drop_first().len() > 0);
        assert(d.drop_first().drop_last() =~= dl.drop_first());
        assert(d.drop_first().last() == d.last());
        assert(escape_seq(d.drop_first()) == escape_seq(dl.drop_first()) + escape_char(d.last()));
        assert(escape_seq(d) =~= escape_char(d[0]) + escape_seq(d.drop_first()));
    }
}

/// Scanning a literal body that was produced by escaping decodes the
/// original text exactly and stops at the closing quote.
pub proof fn lemma_lit_scan_quoted(d: Seq<char>, rest: Seq<char>)
    ensures
        spec_lit_scan(escape_seq(d) + seq!['"'] + rest) == Option::Some((d, rest)),
    decreases d.len(),
{
    let s = escape_seq(d) + seq!['"'] + rest;
    if d.len() == 0 {
        assert(escape_seq(d) =~= Seq::<char>::empty());
        assert(s[0] == '"');
        assert(s.drop_first() =~= rest);
        assert(d =~= Seq::<char>::empty());
    } else {
        let c = d[0];
        lemma_escape_seq_head(d);
        let tail = escape_seq(d.drop_first()) + seq!['"'] + rest;
        assert(s =~= escape_char(c) + tail);
        lemma_lit_scan_quoted(d.drop_first(), rest);
        assert(seq![c] + d.drop_first() =~= d);
        if c == '"' || c == '\\' || c == '\n' || c == '\r' || c == '\t' {
            assert(escape_char(c).len() == 2);
            assert(s[0] == '\\');
            assert(s[1] == escape_char(c)[1]);
            assert(unescape_char(s[1]) == Option::Some(c));
            assert(s.skip(2) =~= tail);
        } else {
            assert(s[0] == c);
            assert(s.drop_first() =~= tail);
        }
    }
}

/// Filling never touches a prefix that cannot start the placeholder.
pub proof fn lemma_fill_no_placeholder_prefix(p: Seq<char>, t: Seq<char>, rep: Seq<char>)
    requires
        forall|j: int| 0 <= j < p.len() ==> p[j] != '{',
    ensures
        fill_spec(p + t, rep) == p + fill_spec(t, rep),
    decreases p.len(),
{
    if p.len() == 0 {
        assert(p + t =~= t);
        assert(p + fill_spec(t, rep) =~= fill_spec(t, rep));
    } else {
        let s = p + t;
        assert(s[0] == p[0]);
        if s.len() >= 5 && s.take(5) == placeholder() {
            assert(s.take(5)[0] == s[0]);
            assert(false);
        }
        assert(s.drop_first() =~= p.drop_first() + t);
        lemma_fill_no_placeholder_prefix(p.drop_first(), t, rep);
        assert(fill_spec(s, rep) =~= p + fill_spec(t, rep));
    }
}

/// A template that wraps the placeholder as `name(…)` fills to the name
/// wrapping the replacement.
pub proof fn lemma_fill_wrapping_template(k: Seq<char>, rep: Seq<char>)
    requires
        forall|j: int| 0 <= j < k.len() ==> is_ident_cont(k[j]),
    ensures
        fill_spec(k + seq!['('] + placeholder() + seq![')'], rep) == k + seq!['('] + rep + seq![
            ')',
        ],
{
    let p = k + seq!['('];
    let t = placeholder() + seq![')'];
    assert(forall|j: int| 0 <= j < k.len() ==> k[j] != '{');
    assert(forall|j: int| 0 <= j < p.len() ==> p[j] != '{');
    lemma_fill_no_placeholder_prefix(p, t, rep);
    assert(t.take(5) =~= placeholder());
    assert(t.skip(5) =~= seq![')']);
    assert(seq![')'].drop_first() =~= Seq::<char>::empty());
    assert(fill_spec(Seq::<char>::empty(), rep) =~= Seq::<char>::empty());
    assert(fill_spec(seq![')'], rep) =~= seq![')']);
    assert(fill_spec(t, rep) =~= rep + seq![')']);
    assert(k + seq!['('] + placeholder() + seq![')'] =~= p + t);
    assert(p + (rep + seq![')']) =~= k + seq!['('] + rep + seq![')']);
}

/// The round trip behind attribute generation: a filled template of the
/// form `name(<quoted documentation text>)` always parses to exactly one
/// key-value metadata item, whose payload is the documentation text
/// verbatim.
pub proof fn lemma_template_round_trip(k: Seq<char>, d: Seq<char>)
    requires
        k.len() > 0,
        is_ident_start(k[0]),
        forall|j: int| 0 <= j < k.len() ==> is_ident_cont(k[j]),
    ensures
        spec_parse_items(k + seq!['('] + quoted(d) + seq![')']) == Option::Some(
            seq![SpecMetaItem::KeyValue { key: k, value: d }],
        ),
{
    let r = seq!['('] + quoted(d) + seq![')'];
    let w = k + seq!['('] + quoted(d) + seq![')'];
    assert(w =~= k + r);
    assert(w[0] == k[0]);
    assert(!is_ws_char(w[0]));
    assert(ws_run(w) == 0);
    assert(skip_ws(w) =~= w);
    assert(w[k.len() as int] == '(');
    assert(!is_ident_cont('('));
    lemma_ident_run_is(w, k.len());
    assert(w.take(k.len() as int) =~= k);
    assert(w.skip(k.len() as int) =~= r);
    assert(spec_take_ident(w) == Option::Some((k, r)));
    assert(r[0] == '(');
    assert(ws_run(r) == 0);
    assert(skip_ws(r) =~= r);
    let r3a = r.drop_first();
    assert(r3a =~= quoted(d) + seq![')']);
    assert(r3a[0] == '"');
    assert(ws_run(r3a) == 0);
    assert(skip_ws(r3a) =~= r3a);
    assert(r3a.drop_first() =~= escape_seq(d) + seq!['"'] + seq![')']);
    lemma_lit_scan_quoted(d, seq![')']);
    let r4a = seq![')'];
    assert(ws_run(r4a) == 0);
    assert(skip_ws(r4a) =~= r4a);
    assert(r4a.drop_first() =~= Seq::<char>::empty());
    assert(spec_parse_item(w) == Option::Some(
        (SpecMetaItem::KeyValue { key: k, value: d }, Seq::<char>::empty()),
    ));
    assert(ws_run(Seq::<char>::empty()) == 0);
    assert(skip_ws(Seq::<char>::empty()) =~= Seq::<char>::empty());
    assert(spec_parse_items_ne(w) == Option::Some(
        seq![SpecMetaItem::KeyValue { key: k, value: d }],
    ));
}

/// Whether `c` can start an identifier; mirror of [`is_ident_start`].
fn is_ident_start_exec(c: char) -> (b: bool)
    ensures
        b == is_ident_start(c),
{
    let u: u32 = c as u32;
    (97 <= u && u <= 122) || (65 <= u && u <= 90) || c == '_'
}

/// Whether `c` can continue an identifier; mirror of [`is_ident_cont`].
fn is_ident_cont_exec(c: char) -> (b: bool)
    ensures
        b == is_ident_cont(c),
{
    let u: u32 = c as u32;
    is_ident_start_exec(c) || (48 <= u && u <= 57)
}

/// The length of the leading identifier-character run of `s`.
fn ident_run_exec(s: &str) -> (n: usize)
    ensures
        n == ident_run(s@),
{
    let len: usize = s.unicode_len();
    let mut i: usize = 0;
    while i < len && is_ident_cont_exec(s.get_char(i))
        invariant
            0 <= i <= len,
            len == s@.len(),
            forall|j: int| 0 <= j < i ==> is_ident_cont(s@[j]),
        decreases len - i,
    {
        i = i + 1;
    }
    proof {
        lemma_ident_run_is(s@, i as nat);
    }
    i
}

/// The leading identifier of `s`, if any, and the rest of the input.
fn take_ident<'a>(s: &'a str) -> (r: Option<(String, &'a str)>)
    ensures
        match r {
            Option::Some(pr) => spec_take_ident(s@) == Option::Some((pr.0@, pr.1@)),
            Option::None => spec_take_ident(s@) is None,
        },
{
    let len: usize = s.unicode_len();
    if len == 0 {
        return Option::None;
    }
    if !is_ident_start_exec(s.get_char(0)) {
        return Option::None;
    }
    let run: usize = ident_run_exec(s);
    proof {
        lemma_ident_run_stops(s@);
    }
    let id_slice = s.substring_char(0, run);
    let rest = s.substring_char(run, len);
    let id = String::from_str(id_slice);
    proof {
        assert(id@ =~= s@.take(run as int));
        assert(rest@ =~= s@.skip(run as int));
    }
    Option::Some((id, rest))
}

/// The result of scanning a literal body, with `prefix` already decoded.
pub open spec fn spec_scan_join(prefix: Seq<char>, s: Seq<char>) -> Option<(Seq<char>, Seq<char>)> {
    match spec_lit_scan(s) {
        Option::Some(pr) => Option::Some((prefix + pr.0, pr.1)),
        Option::None => Option::None,
    }
}

/// Scans the body of a string literal after its opening quote, decoding
/// escapes; yields the payload and what follows the closing quote.
fn lit_scan<'a>(s: &'a str) -> (r: Option<(String, &'a str)>)
    ensures
        match r {
            Option::Some(pr) => spec_lit_scan(s@) == Option::Some((pr.0@, pr.1@)),
            Option::None => spec_lit_scan(s@) is None,
        },
{
    let len: usize = s.unicode_len();
    let mut payload: String = String::new();
    proof {
        assert(s@.skip(0) =~= s@);
    }
    let mut i: usize = 0;
    while i < len
        invariant
            0 <= i <= len,
            len == s@.len(),
            spec_lit_scan(s@) == spec_scan_join(payload@, s@.skip(i as int)),
        decreases len - i,
    {
        let ghost suf = s@.skip(i as int);
        let ghost p0 = payload@;
        proof {
            assert(suf[0] == s@[i as int]);
        }
        let c = s.get_char(i);
        if c == '"' {
            let rest = s.substring_char(i + 1, len);
            proof {
                assert(rest@ =~= suf.drop_first());
                assert(p0 + Seq::<char>::empty() =~= p0);
            }
            return Option::Some((payload, rest));
        } else if c == '\\' {
            if i + 1 == len {
                return Option::None;
            }
            let c1 = s.get_char(i + 1);
            proof {
                assert(suf[1] == s@[i + 1 as int]);
            }
            let ghost u: char = match unescape_char(c1) {
                Option::Some(x) => x,
                Option::None => ' ',
            };
            if c1 == '"' {
                payload.append("\"");
                proof {
                    reveal_strlit("\"");
                    assert("\""@ =~= seq![u]);
                }
            } else if c1 == '\\' {
                payload.append("\\");
                proof {
                    reveal_strlit("\\");
                    assert("\\"@ =~= seq![u]);
                }
            } else if c1 == 'n' {
                payload.append("\n");
                proof {
                    reveal_strlit("\n");
                    assert("\n"@ =~= seq![u]);
                }
            } else if c1 == 'r' {
                payload.append("\r");
                proof {
                    reveal_strlit("\r");
                    assert("\r"@ =~= seq![u]);
                }
            } else if c1 == 't' {
                payload.append("\t");
                proof {
                    reveal_strlit("\t");
                    assert("\t"@ =~= seq![u]);
                }
            } else {
                return Option::None;
            }
            proof {
                assert(suf.skip(2) =~= s@.skip(i + 2 as int));
                assert(payload@ == p0 + seq![u]);
                match spec_lit_scan(suf.skip(2)) {
                    Option::Some(pr) => {
                        assert(p0 + (seq![u] + pr.0) =~= (p0 + seq![u]) + pr.0);
                    },
                    Option::None => {},
                }
            }
            i = i + 2;
        } else {
            let piece = s.substring_char(i, i + 1);
            payload.append(piece);
            proof {
                assert(piece@ =~= seq![c]);
                assert(suf.drop_first() =~= s@.skip(i + 1 as int));
                assert(payload@ == p0 + seq![c]);
                match spec_lit_scan(suf.drop_first()) {
                    Option::Some(pr) => {
                        assert(p0 + (seq![c] + pr.0) =~= (p0 + seq![c]) + pr.0);
                    },
                    Option::None => {},
                }
            }
            i = i + 1;
        }
    }
    proof {
        assert(s@.skip(len as int) =~= Seq::<char>::empty());
    }
    Option::None
}

/// One metadata item at the head of `s`; mirror of [`spec_parse_item`].
fn parse_item<'a>(s: &'a str) -> (r: Option<(MetaItem, &'a str)>)
    ensures
        match r {
            Option::Some(pr) => spec_parse_item(s@) == Option::Some((pr.0@, pr.1@)),
            Option::None => spec_parse_item(s@) is None,
        },
{
    match take_ident(s) {
        Option::None => Option::None,
        Option::Some((id, rest1)) => {
            let r2 = skip_ws_exec(rest1);
            let r2len: usize = r2.unicode_len();
            if r2len > 0 && r2.get_char(0) == '=' {
                let tail2 = r2.substring_char(1, r2len);
                proof {
                    assert(tail2@ =~= r2@.drop_first());
                }
                let r3 = skip_ws_exec(tail2);
                let r3len: usize = r3.unicode_len();
                if r3len > 0 && r3.get_char(0) == '"' {
                    let body = r3.substring_char(1, r3len);
                    proof {
                        assert(body@ =~= r3@.drop_first());
                    }
                    match lit_scan(body) {
                        Option::Some((value, rest)) => Option::Some(
                            (MetaItem::KeyValue { key: id, value }, rest),
                        ),
                        Option::None => Option::None,
                    }
                } else {
                    Option::None
                }
            } else if r2len > 0 && r2.get_char(0) == '(' {
                let tail2 = r2.substring_char(1, r2len);
                proof {
                    assert(tail2@ =~= r2@.drop_first());
                }
                let r3 = skip_ws_exec(tail2);
                let r3len: usize = r3.unicode_len();
                if r3len > 0 && r3.get_char(0) == '"' {
                    let body = r3.substring_char(1, r3len);
                    proof {
                        assert(body@ =~= r3@.drop_first());
                    }
                    match lit_scan(body) {
                        Option::Some((value, rest2)) => {
                            let r4 = skip_ws_exec(rest2);
                            let r4len: usize = r4.unicode_len();
                            if r4len > 0 && r4.get_char(0) == ')' {
                                let rest = r4.substring_char(1, r4len);
                                proof {
                                    assert(rest@ =~= r4@.drop_first());
                                }
                                Option::Some((MetaItem::KeyValue { key: id, value }, rest))
                            } else {
                                Option::None
                            }
                        },
                        Option::None => Option::None,
                    }
                } else {
                    Option::None
                }
            } else {
                Option::Some((MetaItem::Path { path: id }, rest1))
            }
        },
    }
}

/// The remaining-items parse prefixed with the items already parsed.
pub open spec fn spec_items_join(
    prefix: Seq<SpecMetaItem>,
    o: Option<Seq<SpecMetaItem>>,
) -> Option<Seq<SpecMetaItem>> {
    match o {
        Option::Some(rest) => Option::Some(prefix + rest),
        Option::None => Option::None,
    }
}

/// Parses `s` as a possibly empty, comma-separated list of metadata items
/// that must consume all of the input; `None` when malformed.
pub fn parse_meta_items(s: &str) -> (r: Option<Vec<MetaItem>>)
    ensures
        match r {
            Option::Some(items) => spec_parse_items(s@) == Option::Some(items_view(items@)),
            Option::None => spec_parse_items(s@) is None,
        },
{
    let s1 = skip_ws_exec(s);
    if s1.unicode_len() == 0 {
        let items: Vec<MetaItem> = Vec::new();
        proof {
            assert(items_view(items@) =~= Seq::<SpecMetaItem>::empty());
        }
        return Option::Some(items);
    }
    let mut acc: Vec<MetaItem> = Vec::new();
    let mut cur: &str = s1;
    proof {
        assert(items_view(acc@) =~= Seq::<SpecMetaItem>::empty());
        match spec_parse_items_ne(s1@) {
            Option::Some(rest) => {
                assert(Seq::<SpecMetaItem>::empty() + rest =~= rest);
            },
            Option::None => {},
        }
    }
    loop
        invariant
            spec_parse_items(s@) == spec_items_join(items_view(acc@), spec_parse_items_ne(cur@)),
        decreases cur@.len(),
    {
        let ghost acc0 = items_view(acc@);
        let ghost cur0 = cur@;
        proof {
            lemma_parse_item_len(cur@);
        }
        match parse_item(cur) {
            Option::None => {
                return Option::None;
            },
            Option::Some((item, rest)) => {
                let ghost it = item@;
                acc.push(item);
                proof {
                    assert(items_view(acc@) =~= acc0 + seq![it]);
                    lemma_skip_ws_len(rest@);
                }
                let r1 = skip_ws_exec(rest);
                let r1len: usize = r1.unicode_len();
                if r1len == 0 {
                    proof {
                        assert(acc0 + seq![it] =~= items_view(acc@));
                    }
                    return Option::Some(acc);
                }
                if r1.get_char(0) != ',' {
                    return Option::None;
                }
                let tail1 = r1.substring_char(1, r1len);
                proof {
                    assert(tail1@ =~= r1@.drop_first());
                    lemma_skip_ws_len(tail1@);
                }
                let r2 = skip_ws_exec(tail1);
                proof {
                    match spec_parse_items_ne(r2@) {
                        Option::Some(rest2) => {
                            assert(acc0 + (seq![it] + rest2) =~= (acc0 + seq![it]) + rest2);
                        },
                        Option::None => {},
                    }
                }
                cur = r2;
            },
        }
    }
}

} // verus!
