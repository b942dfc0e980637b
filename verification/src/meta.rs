//! The declaration model: tagged metadata items, the structural shapes a
//! declaration can take, and the documentation text derived from the
//! metadata items attached to one declaration element.

use vstd::prelude::*;
use crate::text::{stripped, join, opt_str_view, str_eq, strip_line, lemma_strip_zero_noop};

verus! {

/// One metadata item attached to a declaration or to a member: either a
/// bare marker, or a key with a literal string payload.
pub enum MetaItem {
    /// A bare marker without a payload.
    Path { path: String },
    /// A key carrying a literal string payload.
    KeyValue { key: String, value: String },
}

/// The mathematical value of a [`MetaItem`].
#[verifier::ext_equal]
pub enum SpecMetaItem {
    Path { path: Seq<char> },
    KeyValue { key: Seq<char>, value: Seq<char> },
}

impl View for MetaItem {
    type V = SpecMetaItem;

    open spec fn view(&self) -> SpecMetaItem {
        match self {
            MetaItem::Path { path } => SpecMetaItem::Path { path: path@ },
            MetaItem::KeyValue { key, value } => SpecMetaItem::KeyValue {
                key: key@,
                value: value@,
            },
        }
    }
}

/// The view of a list of metadata items.
pub open spec fn items_view(items: Seq<MetaItem>) -> Seq<SpecMetaItem> {
    Seq::new(items.len(), |i: int| items[i]@)
}

/// Whether a metadata item is a documentation item: a key-value item whose
/// key is the reserved documentation marker.
pub open spec fn is_doc_item(m: SpecMetaItem) -> bool {
    match m {
        SpecMetaItem::KeyValue { key, .. } => key == "doc"@,
        SpecMetaItem::Path { .. } => false,
    }
}

/// The literal payload of a key-value metadata item.
pub open spec fn doc_payload(m: SpecMetaItem) -> Seq<char> {
    match m {
        SpecMetaItem::KeyValue { value, .. } => value,
        SpecMetaItem::Path { .. } => Seq::empty(),
    }
}

/// The payloads of the documentation items among `items`, in source order.
pub open spec fn doc_lines(items: Seq<SpecMetaItem>) -> Seq<Seq<char>>
    decreases items.len(),
{
    if items.len() == 0 {
        Seq::empty()
    } else {
        let rest = doc_lines(items.drop_last());
        if is_doc_item(items.last()) {
            rest.push(doc_payload(items.last()))
        } else {
            rest
        }
    }
}

/// Every line of `lines` after the strip policy.
pub open spec fn strip_all_lines(lines: Seq<Seq<char>>, strip: Option<usize>) -> Seq<Seq<char>> {
    Seq::new(lines.len(), |i: int| stripped(lines[i], strip))
}

/// The documentation text derived from `items`: absent when no
/// documentation item is attached, otherwise the payloads in source order,
/// each after the strip policy, joined with newlines.
pub open spec fn doc_text(items: Seq<SpecMetaItem>, strip: Option<usize>) -> Option<Seq<char>> {
    if doc_lines(items).len() == 0 {
        Option::None
    } else {
        Option::Some(join(strip_all_lines(doc_lines(items), strip)))
    }
}

/// The documentation text is exactly the newline-join of the stripped
/// payloads of the documentation items in source order, and it is absent
/// exactly when there are none.
pub proof fn lemma_doc_text_shape(items: Seq<SpecMetaItem>, strip: Option<usize>)
    ensures
        (doc_text(items, strip) is None) <==> doc_lines(items).len() == 0,
        doc_lines(items).len() > 0 ==> doc_text(items, strip) == Option::Some(
            join(strip_all_lines(doc_lines(items), strip)),
        ),
{
}

/// Strip policy `Some(0)` is a no-op on the whole documentation text: every
/// payload is joined as authored.
pub proof fn lemma_doc_text_strip_zero(items: Seq<SpecMetaItem>)
    ensures
        doc_lines(items).len() == 0 ==> doc_text(items, Option::Some(0)) is None,
        doc_lines(items).len() > 0 ==> doc_text(items, Option::Some(0)) == Option::Some(
            join(doc_lines(items)),
        ),
{
    assert forall|i: int| 0 <= i < doc_lines(items).len() implies strip_all_lines(
        doc_lines(items),
        Option::Some(0),
    )[i] == doc_lines(items)[i] by {
        lemma_strip_zero_noop(doc_lines(items)[i]);
    }
    assert(strip_all_lines(doc_lines(items), Option::Some(0)) =~= doc_lines(items));
}

/// Extracts the documentation text attached to one declaration element.
///
/// Filters `attrs` to its documentation items in source order, applies the
/// strip policy to each payload, and joins the results with newlines;
/// returns `None` exactly when no documentation item is attached.
pub fn get_doc(attrs: &Vec<MetaItem>, strip: Option<usize>) -> (r: Option<String>)
    ensures
        opt_str_view(r) == doc_text(items_view(attrs@), strip),
{
    let ghost all = items_view(attrs@);
    let mut acc: String = String::new();
    let mut found: bool = false;
    let n: usize = attrs.len();
    let mut i: usize = 0;
    while i < n
        invariant
            0 <= i <= n,
            n == attrs.len(),
            all == items_view(attrs@),
            all.len() == n,
            found <==> doc_lines(all.take(i as int)).len() > 0,
            found ==> acc@ == join(strip_all_lines(doc_lines(all.take(i as int)), strip)),
            !found ==> acc@ == Seq::<char>::empty(),
        decreases n - i,
    {
        let ghost prev = all.take(i as int);
        let ghost cur = all.take(i + 1 as int);
        proof {
            assert(cur.drop_last() =~= prev);
            assert(cur.last() == all[i as int]);
        }
        match &attrs[i] {
            MetaItem::KeyValue { key, value } => {
                if str_eq(key.as_str(), "doc") {
                    proof {
                        assert(is_doc_item(all[i as int]));
                        assert(doc_lines(cur) == doc_lines(prev).push(value@));
                        assert(strip_all_lines(doc_lines(cur), strip) =~= strip_all_lines(
                            doc_lines(prev),
                            strip,
                        ).push(stripped(value@, strip)));
                    }
                    let line: &str = strip_line(value.as_str(), strip);
                    if !found {
                        acc = String::from_str(line);
                        found = true;
                        proof {
                            assert(strip_all_lines(doc_lines(cur), strip).len() == 1);
                            assert(join(strip_all_lines(doc_lines(cur), strip)) == stripped(
                                value@,
                                strip,
                            ));
                        }
                    } else {
                        acc.append("\n");
                        acc.append(line);
                        proof {
                            reveal_strlit("\n");
                            assert("\n"@ =~= seq!['\n']);
                            let sl = strip_all_lines(doc_lines(prev), strip);
                            let ext = strip_all_lines(doc_lines(cur), strip);
                            assert(ext.len() > 1);
                            assert(ext.drop_last() =~= sl);
                            assert(ext.last() == stripped(value@, strip));
                            assert(join(ext) == join(sl) + seq!['\n'] + stripped(value@, strip));
                        }
                    }
                } else {
                    proof {
                        assert(!is_doc_item(all[i as int]));
                        assert(doc_lines(cur) == doc_lines(prev));
                    }
                }
            },
            MetaItem::Path { path } => {
                proof {
                    assert(!is_doc_item(all[i as int]));
                    assert(doc_lines(cur) == doc_lines(prev));
                }
            },
        }
        i = i + 1;
    }
    proof {
        assert(all.take(n as int) =~= all);
    }
    if found {
        Option::Some(acc)
    } else {
        Option::None
    }
}

/// One named member: a field of a product or overlay type, or a variant of
/// a sum type, with its attached metadata items.
pub struct Member {
    pub name: String,
    pub attrs: Vec<MetaItem>,
}

/// The mathematical value of a [`Member`].
#[verifier::ext_equal]
pub struct SpecMember {
    pub name: Seq<char>,
    pub attrs: Seq<SpecMetaItem>,
}

impl View for Member {
    type V = SpecMember;

    open spec fn view(&self) -> SpecMember {
        SpecMember { name: self.name@, attrs: items_view(self.attrs@) }
    }
}

/// The view of a list of members.
pub open spec fn members_view(ms: Seq<Member>) -> Seq<SpecMember> {
    Seq::new(ms.len(), |i: int| ms[i]@)
}

/// The view of a list of positional members' metadata lists.
pub open spec fn lists_view(ls: Seq<Vec<MetaItem>>) -> Seq<Seq<SpecMetaItem>> {
    Seq::new(ls.len(), |i: int| items_view(ls[i]@))
}

/// The structural shape of a declaration, which decides how its members
/// are identified and enumerated.
#[allow(inconsistent_fields)]
pub enum Shape {
    /// A product type whose fields are identified by name.
    Named { fields: Vec<Member> },
    /// A product type whose fields are identified by zero-based position.
    Positional { fields: Vec<Vec<MetaItem>> },
    /// Named fields sharing storage; enumerated like named product fields.
    Overlay { fields: Vec<Member> },
    /// A sum type with an ordered list of variants.
    Sum { variants: Vec<Member> },
    /// A shape with no extractable members.
    Opaque,
}

/// The mathematical value of a [`Shape`].
#[verifier::ext_equal]
#[allow(inconsistent_fields)]
pub enum SpecShape {
    Named { fields: Seq<SpecMember> },
    Positional { fields: Seq<Seq<SpecMetaItem>> },
    Overlay { fields: Seq<SpecMember> },
    Sum { variants: Seq<SpecMember> },
    Opaque,
}

impl View for Shape {
    type V = SpecShape;

    open spec fn view(&self) -> SpecShape {
        match self {
            Shape::Named { fields } => SpecShape::Named { fields: members_view(fields@) },
            Shape::Positional { fields } => SpecShape::Positional { fields: lists_view(fields@) },
            Shape::Overlay { fields } => SpecShape::Overlay { fields: members_view(fields@) },
            Shape::Sum { variants } => SpecShape::Sum { variants: members_view(variants@) },
            Shape::Opaque => SpecShape::Opaque,
        }
    }
}

/// A type declaration: its name, the metadata items attached to the type
/// itself, and its structural shape.
pub struct Decl {
    pub name: String,
    pub attrs: Vec<MetaItem>,
    pub shape: Shape,
}

/// The mathematical value of a [`Decl`].
#[verifier::ext_equal]
pub struct SpecDecl {
    pub name: Seq<char>,
    pub attrs: Seq<SpecMetaItem>,
    pub shape: SpecShape,
}

impl View for Decl {
    type V = SpecDecl;

    open spec fn view(&self) -> SpecDecl {
        SpecDecl { name: self.name@, attrs: items_view(self.attrs@), shape: self.shape@ }
    }
}

} // verus!
