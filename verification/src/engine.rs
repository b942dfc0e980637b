//! The extraction and generation engine: the lookup artifacts generated
//! for a declaration, the queries they answer, template-driven attribute
//! generation, and the orchestration of one invocation.

use vstd::prelude::*;
use crate::DocError;
use crate::attrs::{Attrs, SpecAttrs};
use crate::meta::{
    Decl, SpecDecl, Shape, SpecShape, Member, SpecMember, MetaItem, SpecMetaItem, doc_text,
    items_view, members_view, lists_view, get_doc,
};
use crate::template::{
    fill_spec, quoted, spec_parse_items, fill_template, quote_lit, parse_meta_items,
};
use crate::text::{opt_str_view, str_eq, strings_view};

verus! {

/// One arm of a generated name-keyed lookup: a member's declared name and
/// its documentation text.
pub struct Arm {
    pub name: String,
    pub value: Option<String>,
}

/// The mathematical value of an [`Arm`].
#[verifier::ext_equal]
pub struct SpecArm {
    pub name: Seq<char>,
    pub value: Option<Seq<char>>,
}

impl View for Arm {
    type V = SpecArm;

    open spec fn view(&self) -> SpecArm {
        SpecArm { name: self.name@, value: opt_str_view(self.value) }
    }
}

/// The view of a list of lookup arms.
pub open spec fn arms_view(arms: Seq<Arm>) -> Seq<SpecArm> {
    Seq::new(arms.len(), |i: int| arms[i]@)
}

/// The view of a list of index-keyed lookup values.
pub open spec fn values_view(vs: Seq<Option<String>>) -> Seq<Option<Seq<char>>> {
    Seq::new(vs.len(), |i: int| opt_str_view(vs[i]))
}

/// The body of a generated member lookup.
pub enum LookupBody {
    /// Dispatch on the member's declared name, matched verbatim.
    Named { arms: Vec<Arm> },
    /// Dispatch on the member's zero-based declaration position.
    Indexed { values: Vec<Option<String>> },
    /// Nothing to dispatch on: every query reports no documentation.
    AlwaysAbsent,
}

/// The mathematical value of a [`LookupBody`].
#[verifier::ext_equal]
pub enum SpecLookupBody {
    Named { arms: Seq<SpecArm> },
    Indexed { values: Seq<Option<Seq<char>>> },
    AlwaysAbsent,
}

impl View for LookupBody {
    type V = SpecLookupBody;

    open spec fn view(&self) -> SpecLookupBody {
        match self {
            LookupBody::Named { arms } => SpecLookupBody::Named { arms: arms_view(arms@) },
            LookupBody::Indexed { values } => SpecLookupBody::Indexed {
                values: values_view(values@),
            },
            LookupBody::AlwaysAbsent => SpecLookupBody::AlwaysAbsent,
        }
    }
}

/// The artifact generated for the type- and member-level documentation
/// lookup of one declaration.
pub struct DocForImpl {
    pub type_doc: Option<String>,
    pub body: LookupBody,
}

/// The mathematical value of a [`DocForImpl`].
#[verifier::ext_equal]
pub struct SpecDocForImpl {
    pub type_doc: Option<Seq<char>>,
    pub body: SpecLookupBody,
}

impl View for DocForImpl {
    type V = SpecDocForImpl;

    open spec fn view(&self) -> SpecDocForImpl {
        SpecDocForImpl { type_doc: opt_str_view(self.type_doc), body: self.body@ }
    }
}

/// The artifact generated for the dynamic variant lookup of a sum type.
pub struct DocDynImpl {
    pub arms: Vec<Arm>,
}

/// The mathematical value of a [`DocDynImpl`].
#[verifier::ext_equal]
pub struct SpecDocDynImpl {
    pub arms: Seq<SpecArm>,
}

impl View for DocDynImpl {
    type V = SpecDocDynImpl;

    open spec fn view(&self) -> SpecDocDynImpl {
        SpecDocDynImpl { arms: arms_view(self.arms@) }
    }
}

/// Everything one invocation produces: the requested lookup artifacts and
/// the declaration as re-emitted, with any generated member attributes.
pub struct Expansion {
    pub doc_for: Option<DocForImpl>,
    pub doc_dyn: Option<DocDynImpl>,
    pub decl: Decl,
}

/// The mathematical value of an [`Expansion`].
#[verifier::ext_equal]
pub struct SpecExpansion {
    pub doc_for: Option<SpecDocForImpl>,
    pub doc_dyn: Option<SpecDocDynImpl>,
    pub decl: SpecDecl,
}

impl View for Expansion {
    type V = SpecExpansion;

    open spec fn view(&self) -> SpecExpansion {
        SpecExpansion {
            doc_for: match &self.doc_for {
                Option::Some(d) => Option::Some(d@),
                Option::None => Option::None,
            },
            doc_dyn: match &self.doc_dyn {
                Option::Some(d) => Option::Some(d@),
                Option::None => Option::None,
            },
            decl: self.decl@,
        }
    }
}

/// The lookup arm of one member: its declared name and documentation text.
pub open spec fn spec_arm(m: SpecMember, strip: Option<usize>) -> SpecArm {
    SpecArm { name: m.name, value: doc_text(m.attrs, strip) }
}

/// The name-keyed lookup arms of a member list, in declaration order.
pub open spec fn spec_arms(ms: Seq<SpecMember>, strip: Option<usize>) -> Seq<SpecArm> {
    Seq::new(ms.len(), |i: int| spec_arm(ms[i], strip))
}

/// The index-keyed lookup values of a positional member list.
pub open spec fn spec_arms_index(
    ls: Seq<Seq<SpecMetaItem>>,
    strip: Option<usize>,
) -> Seq<Option<Seq<char>>> {
    Seq::new(ls.len(), |i: int| doc_text(ls[i], strip))
}

/// The lookup artifact of a declaration under a strip policy: the
/// type-level documentation text, and a member lookup keyed as the shape
/// demands.
pub open spec fn spec_doc_for_impl(d: SpecDecl, strip: Option<usize>) -> SpecDocForImpl {
    SpecDocForImpl {
        type_doc: doc_text(d.attrs, strip),
        body: match d.shape {
            SpecShape::Named { fields } => SpecLookupBody::Named { arms: spec_arms(fields, strip) },
            SpecShape::Positional { fields } => SpecLookupBody::Indexed {
                values: spec_arms_index(fields, strip),
            },
            SpecShape::Overlay { fields } => SpecLookupBody::Named {
                arms: spec_arms(fields, strip),
            },
            SpecShape::Sum { variants } => SpecLookupBody::Named {
                arms: spec_arms(variants, strip),
            },
            SpecShape::Opaque => SpecLookupBody::AlwaysAbsent,
        },
    }
}

/// The dynamic variant lookup of a declaration: defined exactly for sum
/// types, every other shape is rejected.
pub open spec fn spec_doc_dyn_impl(d: SpecDecl, strip: Option<usize>) -> Result<
    SpecDocDynImpl,
    DocError,
> {
    match d.shape {
        SpecShape::Sum { variants } => Result::Ok(SpecDocDynImpl { arms: spec_arms(variants, strip) }),
        _ => Result::Err(DocError::NotSum),
    }
}

/// The documentation text of one member or variant, used as the value of
/// its lookup arm.
pub fn generate_arm_value(attrs: &Vec<MetaItem>, strip: Option<usize>) -> (r: Option<String>)
    ensures
        opt_str_view(r) == doc_text(items_view(attrs@), strip),
{
    get_doc(attrs, strip)
}

/// The name-keyed lookup arms of a member list, in declaration order.
pub fn generate_arms(members: &Vec<Member>, strip: Option<usize>) -> (r: Vec<Arm>)
    ensures
        arms_view(r@) == spec_arms(members_view(members@), strip),
{
    let mut r: Vec<Arm> = Vec::new();
    let n: usize = members.len();
    let mut i: usize = 0;
    while i < n
        invariant
            0 <= i <= n,
            n == members.len(),
            r@.len() == i,
            forall|j: int| 0 <= j < i ==> r@[j]@ == spec_arm(members_view(members@)[j], strip),
        decreases n - i,
    {
        let m = &members[i];
        let value = generate_arm_value(&m.attrs, strip);
        r.push(Arm { name: m.name.clone(), value });
        i = i + 1;
    }
    proof {
        assert(arms_view(r@) =~= spec_arms(members_view(members@), strip));
    }
    r
}

/// The index-keyed lookup values of a positional member list.
pub fn generate_arms_index(fields: &Vec<Vec<MetaItem>>, strip: Option<usize>) -> (r: Vec<
    Option<String>,
>)
    ensures
        values_view(r@) == spec_arms_index(lists_view(fields@), strip),
{
    let mut r: Vec<Option<String>> = Vec::new();
    let n: usize = fields.len();
    let mut i: usize = 0;
    while i < n
        invariant
            0 <= i <= n,
            n == fields.len(),
            r@.len() == i,
            forall|j: int| 0 <= j < i ==> opt_str_view(r@[j]) == doc_text(
                lists_view(fields@)[j],
                strip,
            ),
        decreases n - i,
    {
        let value = generate_arm_value(&fields[i], strip);
        r.push(value);
        i = i + 1;
    }
    proof {
        assert(values_view(r@) =~= spec_arms_index(lists_view(fields@), strip));
    }
    r
}

/// The lookup arms of a sum type's variants: the same values as
/// [`generate_arms`], dispatched on the active variant instead of a name.
pub fn generate_arms_enum(variants: &Vec<Member>, strip: Option<usize>) -> (r: Vec<Arm>)
    ensures
        arms_view(r@) == spec_arms(members_view(variants@), strip),
{
    generate_arms(variants, strip)
}

/// Generates the type- and member-level documentation lookup of a
/// declaration: its documentation text, and a member lookup keyed by name,
/// by position, or reporting absence for a shape with no members.
pub fn gen_doc_for_impl(input: &Decl, strip: Option<usize>) -> (r: DocForImpl)
    ensures
        r@ == spec_doc_for_impl(input@, strip),
{
    let type_doc = get_doc(&input.attrs, strip);
    let body = match &input.shape {
        Shape::Named { fields } => LookupBody::Named { arms: generate_arms(fields, strip) },
        Shape::Positional { fields } => LookupBody::Indexed {
            values: generate_arms_index(fields, strip),
        },
        Shape::Overlay { fields } => LookupBody::Named { arms: generate_arms(fields, strip) },
        Shape::Sum { variants } => LookupBody::Named { arms: generate_arms(variants, strip) },
        Shape::Opaque => LookupBody::AlwaysAbsent,
    };
    let r = DocForImpl { type_doc, body };
    proof {
        assert(r@ =~= spec_doc_for_impl(input@, strip));
    }
    r
}

/// Generates the dynamic variant lookup of a sum type; any other shape is
/// rejected with [`DocError::NotSum`].
pub fn gen_doc_dyn_impl(input: &Decl, strip: Option<usize>) -> (r: Result<DocDynImpl, DocError>)
    ensures
        match r {
            Result::Ok(dd) => spec_doc_dyn_impl(input@, strip) == Result::<
                SpecDocDynImpl,
                DocError,
            >::Ok(dd@),
            Result::Err(e) => spec_doc_dyn_impl(input@, strip) == Result::<
                SpecDocDynImpl,
                DocError,
            >::Err(e),
        },
{
    match &input.shape {
        Shape::Sum { variants } => {
            let dd = DocDynImpl { arms: generate_arms_enum(variants, strip) };
            proof {
                assert(dd@ =~= (match spec_doc_dyn_impl(input@, strip) {
                    Result::Ok(s) => s,
                    Result::Err(_) => dd@,
                }));
            }
            Result::Ok(dd)
        },
        _ => Result::Err(DocError::NotSum),
    }
}

/// First-match lookup of `name` among the arms of a name-keyed body.
pub open spec fn spec_named_lookup(arms: Seq<SpecArm>, name: Seq<char>) -> Option<Seq<char>>
    decreases arms.len(),
{
    if arms.len() == 0 {
        Option::None
    } else if arms.first().name == name {
        arms.first().value
    } else {
        spec_named_lookup(arms.drop_first(), name)
    }
}

/// Whether some arm carries `name`.
pub open spec fn spec_has_arm(arms: Seq<SpecArm>, name: Seq<char>) -> bool {
    exists|i: int| 0 <= i < arms.len() && arms[i].name == name
}

impl DocForImpl {
    /// The type-level documentation text, or `None` for an undocumented
    /// type.
    pub fn doc(&self) -> (r: Option<String>)
        ensures
            opt_str_view(r) == self@.type_doc,
    {
        match &self.type_doc {
            Option::Some(s) => Option::Some(s.clone()),
            Option::None => Option::None,
        }
    }

    /// The type-level documentation text of a documented type; demanding
    /// documentation to exist mirrors the aborting unwrap query form.
    pub fn doc_unwrap(&self) -> (r: String)
        requires
            self@.type_doc is Some,
        ensures
            Option::Some(r@) == self@.type_doc,
    {
        match &self.type_doc {
            Option::Some(s) => s.clone(),
            Option::None => {
                proof {
                    assert(false);
                }
                String::new()
            },
        }
    }

    /// The member lookup of a name-keyed or memberless shape: the
    /// documentation text of the named member, `None` for a declared but
    /// undocumented member. A name outside the declared member set is a
    /// programmer error on which the generated lookup aborts, so the
    /// precondition excludes it; a memberless shape answers every name
    /// with absence.
    pub fn doc_for_field(&self, field_or_variant: &str) -> (r: Option<String>)
        requires
            match self@.body {
                SpecLookupBody::Named { arms } => spec_has_arm(arms, field_or_variant@),
                SpecLookupBody::Indexed { .. } => false,
                SpecLookupBody::AlwaysAbsent => true,
            },
        ensures
            match self@.body {
                SpecLookupBody::Named { arms } => opt_str_view(r) == spec_named_lookup(
                    arms,
                    field_or_variant@,
                ),
                SpecLookupBody::Indexed { .. } => true,
                SpecLookupBody::AlwaysAbsent => r is None,
            },
    {
        match &self.body {
            LookupBody::Named { arms } => {
                let ghost garms = arms_view(arms@);
                let n: usize = arms.len();
                let mut i: usize = 0;
                proof {
                    assert(garms.skip(0) =~= garms);
                }
                while i < n
                    invariant
                        0 <= i <= n,
                        n == arms.len(),
                        garms == arms_view(arms@),
                        garms.len() == n,
                        self@.body == (SpecLookupBody::Named { arms: garms }),
                        spec_has_arm(garms.skip(i as int), field_or_variant@),
                        spec_named_lookup(garms, field_or_variant@) == spec_named_lookup(
                            garms.skip(i as int),
                            field_or_variant@,
                        ),
                    decreases n - i,
                {
                    let ghost suf = garms.skip(i as int);
                    proof {
                        assert(suf.first() == garms[i as int]);
                        assert(suf.drop_first() =~= garms.skip(i + 1 as int));
                    }
                    let arm = &arms[i];
                    if str_eq(arm.name.as_str(), field_or_variant) {
                        return match &arm.value {
                            Option::Some(s) => Option::Some(s.clone()),
                            Option::None => Option::None,
                        };
                    }
                    proof {
                        assert forall|k: int|
                            0 <= k < suf.drop_first().len() && suf.drop_first()[k].name
                                == field_or_variant@ implies spec_has_arm(
                            garms.skip(i + 1 as int),
                            field_or_variant@,
                        ) by {}
                        let w = choose|k: int|
                            0 <= k < suf.len() && suf[k].name == field_or_variant@;
                        assert(w != 0);
                        assert(suf.drop_first()[w - 1] == suf[w]);
                    }
                    i = i + 1;
                }
                proof {
                    assert(garms.skip(n as int) =~= Seq::<SpecArm>::empty());
                    assert(false);
                }
                Option::None
            },
            LookupBody::Indexed { .. } => {
                proof {
                    assert(false);
                }
                Option::None
            },
            LookupBody::AlwaysAbsent => Option::None,
        }
    }

    /// The member lookup of a documented member of a name-keyed shape;
    /// demanding documentation to exist mirrors the aborting unwrap
    /// query form.
    pub fn doc_for_field_unwrap(&self, field_or_variant: &str) -> (r: String)
        requires
            match self@.body {
                SpecLookupBody::Named { arms } => spec_has_arm(arms, field_or_variant@)
                    && spec_named_lookup(arms, field_or_variant@) is Some,
                SpecLookupBody::Indexed { .. } => false,
                SpecLookupBody::AlwaysAbsent => false,
            },
        ensures
            match self@.body {
                SpecLookupBody::Named { arms } => Option::Some(r@) == spec_named_lookup(
                    arms,
                    field_or_variant@,
                ),
                SpecLookupBody::Indexed { .. } => true,
                SpecLookupBody::AlwaysAbsent => true,
            },
    {
        match self.doc_for_field(field_or_variant) {
            Option::Some(s) => s,
            Option::None => {
                proof {
                    assert(false);
                }
                String::new()
            },
        }
    }

    /// The member lookup of a documented member of a position-keyed shape;
    /// demanding documentation to exist mirrors the aborting unwrap
    /// query form.
    pub fn doc_for_field_index_unwrap(&self, field_index: usize) -> (r: String)
        requires
            match self@.body {
                SpecLookupBody::Named { .. } => false,
                SpecLookupBody::Indexed { values } => field_index < values.len() && values[
                    field_index as int
                ] is Some,
                SpecLookupBody::AlwaysAbsent => false,
            },
        ensures
            match self@.body {
                SpecLookupBody::Named { .. } => true,
                SpecLookupBody::Indexed { values } => Option::Some(r@) == values[
                    field_index as int
                ],
                SpecLookupBody::AlwaysAbsent => true,
            },
    {
        match self.doc_for_field_index(field_index) {
            Option::Some(s) => s,
            Option::None => {
                proof {
                    assert(false);
                }
                String::new()
            },
        }
    }

    /// The member lookup of a position-keyed shape: the documentation text
    /// of the field at the given zero-based position. A position outside
    /// the declared range is a programmer error on which the generated
    /// lookup aborts, so the precondition excludes it.
    pub fn doc_for_field_index(&self, field_index: usize) -> (r: Option<String>)
        requires
            match self@.body {
                SpecLookupBody::Named { .. } => false,
                SpecLookupBody::Indexed { values } => field_index < values.len(),
                SpecLookupBody::AlwaysAbsent => true,
            },
        ensures
            match self@.body {
                SpecLookupBody::Named { .. } => true,
                SpecLookupBody::Indexed { values } => opt_str_view(r) == values[field_index as int],
                SpecLookupBody::AlwaysAbsent => r is None,
            },
    {
        match &self.body {
            LookupBody::Indexed { values } => {
                match &values[field_index] {
                    Option::Some(s) => Option::Some(s.clone()),
                    Option::None => Option::None,
                }
            },
            LookupBody::Named { .. } => {
                proof {
                    assert(false);
                }
                Option::None
            },
            LookupBody::AlwaysAbsent => Option::None,
        }
    }
}

impl DocDynImpl {
    /// The dynamic variant lookup: the documentation text of the variant a
    /// value currently holds, identified by its declaration index. The
    /// dispatch is exhaustive over the closed variant set, so the index is
    /// required to be in range.
    pub fn doc_dyn(&self, active_variant: usize) -> (r: Option<String>)
        requires
            active_variant < self@.arms.len(),
        ensures
            opt_str_view(r) == self@.arms[active_variant as int].value,
    {
        match &self.arms[active_variant].value {
            Option::Some(s) => Option::Some(s.clone()),
            Option::None => Option::None,
        }
    }
}

/// One member's metadata items after attribute generation for
/// documentation text `doc`: each template in order is filled with the
/// quoted text and must parse to exactly one metadata item, which is
/// appended after the pre-existing items; any other outcome is rejected
/// with the count of items the template yielded.
pub open spec fn spec_gen_member_attrs(
    attrs: Seq<SpecMetaItem>,
    doc: Seq<char>,
    templates: Seq<Seq<char>>,
) -> Result<Seq<SpecMetaItem>, DocError>
    decreases templates.len(),
{
    if templates.len() == 0 {
        Result::Ok(attrs)
    } else {
        match spec_parse_items(fill_spec(templates.first(), quoted(doc))) {
            Option::Some(items) => if items.len() == 1 {
                spec_gen_member_attrs(attrs.push(items[0]), doc, templates.drop_first())
            } else {
                Result::Err(DocError::TemplateCount { count: items.len() as usize })
            },
            Option::None => Result::Err(DocError::TemplateCount { count: 0 }),
        }
    }
}

/// A member after attribute generation: an undocumented member is left
/// untouched for every template; a documented one gains the items its
/// filled templates yield.
pub open spec fn spec_gen_member(
    m: SpecMember,
    templates: Seq<Seq<char>>,
    strip: Option<usize>,
) -> Result<SpecMember, DocError> {
    match doc_text(m.attrs, strip) {
        Option::Some(doc) => match spec_gen_member_attrs(m.attrs, doc, templates) {
            Result::Ok(a2) => Result::Ok(SpecMember { name: m.name, attrs: a2 }),
            Result::Err(e) => Result::Err(e),
        },
        Option::None => Result::Ok(m),
    }
}

/// A member list after attribute generation, in declaration order; the
/// first failing member rejects the whole list.
pub open spec fn spec_gen_members(
    ms: Seq<SpecMember>,
    templates: Seq<Seq<char>>,
    strip: Option<usize>,
) -> Result<Seq<SpecMember>, DocError>
    decreases ms.len(),
{
    if ms.len() == 0 {
        Result::Ok(Seq::empty())
    } else {
        match spec_gen_member(ms.first(), templates, strip) {
            Result::Ok(m2) => match spec_gen_members(ms.drop_first(), templates, strip) {
                Result::Ok(rest) => Result::Ok(seq![m2] + rest),
                Result::Err(e) => Result::Err(e),
            },
            Result::Err(e) => Result::Err(e),
        }
    }
}

/// A positional member's metadata items after attribute generation.
pub open spec fn spec_gen_list(
    attrs: Seq<SpecMetaItem>,
    templates: Seq<Seq<char>>,
    strip: Option<usize>,
) -> Result<Seq<SpecMetaItem>, DocError> {
    match doc_text(attrs, strip) {
        Option::Some(doc) => spec_gen_member_attrs(attrs, doc, templates),
        Option::None => Result::Ok(attrs),
    }
}

/// A positional member list after attribute generation.
pub open spec fn spec_gen_lists(
    ls: Seq<Seq<SpecMetaItem>>,
    templates: Seq<Seq<char>>,
    strip: Option<usize>,
) -> Result<Seq<Seq<SpecMetaItem>>, DocError>
    decreases ls.len(),
{
    if ls.len() == 0 {
        Result::Ok(Seq::empty())
    } else {
        match spec_gen_list(ls.first(), templates, strip) {
            Result::Ok(a2) => match spec_gen_lists(ls.drop_first(), templates, strip) {
                Result::Ok(rest) => Result::Ok(seq![a2] + rest),
                Result::Err(e) => Result::Err(e),
            },
            Result::Err(e) => Result::Err(e),
        }
    }
}

/// A declaration after attribute generation: its members gain the items
/// the templates yield; a shape with no members to attach to is rejected.
pub open spec fn spec_gen_attrs(
    d: SpecDecl,
    templates: Seq<Seq<char>>,
    strip: Option<usize>,
) -> Result<SpecDecl, DocError> {
    match d.shape {
        SpecShape::Named { fields } => match spec_gen_members(fields, templates, strip) {
            Result::Ok(f2) => Result::Ok(
                SpecDecl { name: d.name, attrs: d.attrs, shape: SpecShape::Named { fields: f2 } },
            ),
            Result::Err(e) => Result::Err(e),
        },
        SpecShape::Positional { fields } => match spec_gen_lists(fields, templates, strip) {
            Result::Ok(f2) => Result::Ok(
                SpecDecl {
                    name: d.name,
                    attrs: d.attrs,
                    shape: SpecShape::Positional { fields: f2 },
                },
            ),
            Result::Err(e) => Result::Err(e),
        },
        SpecShape::Overlay { fields } => match spec_gen_members(fields, templates, strip) {
            Result::Ok(f2) => Result::Ok(
                SpecDecl { name: d.name, attrs: d.attrs, shape: SpecShape::Overlay { fields: f2 } },
            ),
            Result::Err(e) => Result::Err(e),
        },
        SpecShape::Sum { variants } => match spec_gen_members(variants, templates, strip) {
            Result::Ok(v2) => Result::Ok(
                SpecDecl { name: d.name, attrs: d.attrs, shape: SpecShape::Sum { variants: v2 } },
            ),
            Result::Err(e) => Result::Err(e),
        },
        SpecShape::Opaque => Result::Err(DocError::NoMembers),
    }
}

/// Appends to `attrs` the items the templates yield for documentation
/// text `doc`; mirror of [`spec_gen_member_attrs`].
#[verifier::loop_isolation(false)]
fn gen_member_attrs(attrs: Vec<MetaItem>, doc: &str, templates: &Vec<String>) -> (r: Result<
    Vec<MetaItem>,
    DocError,
>)
    ensures
        match r {
            Result::Ok(a2) => spec_gen_member_attrs(
                items_view(attrs@),
                doc@,
                strings_view(templates@),
            ) == Result::<Seq<SpecMetaItem>, DocError>::Ok(items_view(a2@)),
            Result::Err(e) => spec_gen_member_attrs(
                items_view(attrs@),
                doc@,
                strings_view(templates@),
            ) == Result::<Seq<SpecMetaItem>, DocError>::Err(e),
        },
{
    let ghost orig = items_view(attrs@);
    let ghost all_t = strings_view(templates@);
    let quoted_doc = quote_lit(doc);
    let mut a = attrs;
    let n: usize = templates.len();
    proof {
        assert(all_t.skip(0) =~= all_t);
    }
    let mut i: usize = 0;
    while i < n
        invariant
            0 <= i <= n,
            n == templates.len(),
            all_t == strings_view(templates@),
            all_t.len() == n,
            quoted_doc@ == quoted(doc@),
            spec_gen_member_attrs(orig, doc@, all_t) == spec_gen_member_attrs(
                items_view(a@),
                doc@,
                all_t.skip(i as int),
            ),
        decreases n - i,
    {
        let ghost suf = all_t.skip(i as int);
        let ghost a0 = items_view(a@);
        proof {
            assert(suf.first() == all_t[i as int]);
            assert(suf.drop_first() =~= all_t.skip(i + 1 as int));
        }
        let filled = fill_template(templates[i].as_str(), quoted_doc.as_str());
        proof {
            assert(fill_spec(suf.first(), quoted(doc@)) == filled@);
        }
        match parse_meta_items(filled.as_str()) {
            Option::None => {
                proof {
                    assert(spec_gen_member_attrs(items_view(a@), doc@, suf) == Result::<
                        Seq<SpecMetaItem>,
                        DocError,
                    >::Err(DocError::TemplateCount { count: 0 }));
                }
                return Result::Err(DocError::TemplateCount { count: 0 });
            },
            Option::Some(items) => {
                let count: usize = items.len();
                if count != 1 {
                    proof {
                        assert(items_view(items@).len() == count);
                        assert(spec_gen_member_attrs(items_view(a@), doc@, suf) == Result::<
                            Seq<SpecMetaItem>,
                            DocError,
                        >::Err(DocError::TemplateCount { count }));
                    }
                    return Result::Err(DocError::TemplateCount { count });
                }
                let mut items = items;
                let item = match items.pop() {
                    Option::Some(it) => it,
                    Option::None => {
                        proof {
                            assert(false);
                        }
                        return Result::Err(DocError::TemplateCount { count: 0 });
                    },
                };
                proof {
                    assert(item@ == items_view(items@.push(item))[0]);
                }
                a.push(item);
                proof {
                    assert(items_view(a@) =~= a0.push(item@));
                }
            },
        }
        i = i + 1;
    }
    proof {
        assert(all_t.skip(n as int) =~= Seq::<Seq<char>>::empty());
    }
    Result::Ok(a)
}

/// One member after attribute generation; mirror of [`spec_gen_member`].
fn gen_member(m: Member, templates: &Vec<String>, strip: Option<usize>) -> (r: Result<
    Member,
    DocError,
>)
    ensures
        match r {
            Result::Ok(m2) => spec_gen_member(m@, strings_view(templates@), strip) == Result::<
                SpecMember,
                DocError,
            >::Ok(m2@),
            Result::Err(e) => spec_gen_member(m@, strings_view(templates@), strip) == Result::<
                SpecMember,
                DocError,
            >::Err(e),
        },
{
    match get_doc(&m.attrs, strip) {
        Option::None => Result::Ok(m),
        Option::Some(doc) => {
            let Member { name, attrs } = m;
            match gen_member_attrs(attrs, doc.as_str(), templates) {
                Result::Ok(a2) => {
                    let m2 = Member { name, attrs: a2 };
                    proof {
                        assert(m2@ =~= (match spec_gen_member(m@, strings_view(templates@), strip) {
                            Result::Ok(x) => x,
                            Result::Err(_) => m2@,
                        }));
                    }
                    Result::Ok(m2)
                },
                Result::Err(e) => Result::Err(e),
            }
        },
    }
}

/// The remaining-members result prefixed with the members already done.
pub open spec fn spec_members_join(
    prefix: Seq<SpecMember>,
    o: Result<Seq<SpecMember>, DocError>,
) -> Result<Seq<SpecMember>, DocError> {
    match o {
        Result::Ok(rest) => Result::Ok(prefix + rest),
        Result::Err(e) => Result::Err(e),
    }
}

/// A member list after attribute generation; mirror of
/// [`spec_gen_members`].
#[verifier::loop_isolation(false)]
fn gen_members(ms: Vec<Member>, templates: &Vec<String>, strip: Option<usize>) -> (r: Result<
    Vec<Member>,
    DocError,
>)
    ensures
        match r {
            Result::Ok(ms2) => spec_gen_members(
                members_view(ms@),
                strings_view(templates@),
                strip,
            ) == Result::<Seq<SpecMember>, DocError>::Ok(members_view(ms2@)),
            Result::Err(e) => spec_gen_members(members_view(ms@), strings_view(templates@), strip)
                == Result::<Seq<SpecMember>, DocError>::Err(e),
        },
{
    let ghost all = members_view(ms@);
    let ghost t = strings_view(templates@);
    let mut ms = ms;
    let mut out: Vec<Member> = Vec::new();
    proof {
        assert(members_view(out@) =~= Seq::<SpecMember>::empty());
        match spec_gen_members(all, t, strip) {
            Result::Ok(rest) => {
                assert(Seq::<SpecMember>::empty() + rest =~= rest);
            },
            Result::Err(_) => {},
        }
    }
    while ms.len() > 0
        invariant
            t == strings_view(templates@),
            spec_gen_members(all, t, strip) == spec_members_join(
                members_view(out@),
                spec_gen_members(members_view(ms@), t, strip),
            ),
        decreases ms.len(),
    {
        let ghost cur = members_view(ms@);
        let ghost pre = members_view(out@);
        let m = ms.remove(0);
        proof {
            assert(m@ == cur.first());
            assert(members_view(ms@) =~= cur.drop_first());
        }
        match gen_member(m, templates, strip) {
            Result::Ok(m2) => {
                let ghost m2v = m2@;
                out.push(m2);
                proof {
                    assert(members_view(out@) =~= pre.push(m2v));
                    match spec_gen_members(cur.drop_first(), t, strip) {
                        Result::Ok(rest) => {
                            assert(pre + (seq![m2v] + rest) =~= pre.push(m2v) + rest);
                        },
                        Result::Err(_) => {},
                    }
                }
            },
            Result::Err(e) => {
                proof {
                    assert(spec_gen_members(cur, t, strip) == Result::<
                        Seq<SpecMember>,
                        DocError,
                    >::Err(e));
                }
                return Result::Err(e);
            },
        }
    }
    proof {
        assert(members_view(ms@).len() == 0);
        assert(members_view(out@) + Seq::<SpecMember>::empty() =~= members_view(out@));
    }
    Result::Ok(out)
}

/// One positional member's items after attribute generation; mirror of
/// [`spec_gen_list`].
fn gen_list(attrs: Vec<MetaItem>, templates: &Vec<String>, strip: Option<usize>) -> (r: Result<
    Vec<MetaItem>,
    DocError,
>)
    ensures
        match r {
            Result::Ok(a2) => spec_gen_list(items_view(attrs@), strings_view(templates@), strip)
                == Result::<Seq<SpecMetaItem>, DocError>::Ok(items_view(a2@)),
            Result::Err(e) => spec_gen_list(items_view(attrs@), strings_view(templates@), strip)
                == Result::<Seq<SpecMetaItem>, DocError>::Err(e),
        },
{
    match get_doc(&attrs, strip) {
        Option::None => Result::Ok(attrs),
        Option::Some(doc) => gen_member_attrs(attrs, doc.as_str(), templates),
    }
}

/// The remaining-lists result prefixed with the lists already done.
pub open spec fn spec_lists_join(
    prefix: Seq<Seq<SpecMetaItem>>,
    o: Result<Seq<Seq<SpecMetaItem>>, DocError>,
) -> Result<Seq<Seq<SpecMetaItem>>, DocError> {
    match o {
        Result::Ok(rest) => Result::Ok(prefix + rest),
        Result::Err(e) => Result::Err(e),
    }
}

/// A positional member list after attribute generation; mirror of
/// [`spec_gen_lists`].
#[verifier::loop_isolation(false)]
fn gen_lists(ls: Vec<Vec<MetaItem>>, templates: &Vec<String>, strip: Option<usize>) -> (r: Result<
    Vec<Vec<MetaItem>>,
    DocError,
>)
    ensures
        match r {
            Result::Ok(ls2) => spec_gen_lists(lists_view(ls@), strings_view(templates@), strip)
                == Result::<Seq<Seq<SpecMetaItem>>, DocError>::Ok(lists_view(ls2@)),
            Result::Err(e) => spec_gen_lists(lists_view(ls@), strings_view(templates@), strip)
                == Result::<Seq<Seq<SpecMetaItem>>, DocError>::Err(e),
        },
{
    let ghost all = lists_view(ls@);
    let ghost t = strings_view(templates@);
    let mut ls = ls;
    let mut out: Vec<Vec<MetaItem>> = Vec::new();
    proof {
        assert(lists_view(out@) =~= Seq::<Seq<SpecMetaItem>>::empty());
        match spec_gen_lists(all, t, strip) {
            Result::Ok(rest) => {
                assert(Seq::<Seq<SpecMetaItem>>::empty() + rest =~= rest);
            },
            Result::Err(_) => {},
        }
    }
    while ls.len() > 0
        invariant
            t == strings_view(templates@),
            spec_gen_lists(all, t, strip) == spec_lists_join(
                lists_view(out@),
                spec_gen_lists(lists_view(ls@), t, strip),
            ),
        decreases ls.len(),
    {
        let ghost cur = lists_view(ls@);
        let ghost pre = lists_view(out@);
        let attrs = ls.remove(0);
        proof {
            assert(items_view(attrs@) == cur.first());
            assert(lists_view(ls@) =~= cur.drop_first());
        }
        match gen_list(attrs, templates, strip) {
            Result::Ok(a2) => {
                let ghost a2v = items_view(a2@);
                out.push(a2);
                proof {
                    assert(lists_view(out@) =~= pre.push(a2v));
                    match spec_gen_lists(cur.drop_first(), t, strip) {
                        Result::Ok(rest) => {
                            assert(pre + (seq![a2v] + rest) =~= pre.push(a2v) + rest);
                        },
                        Result::Err(_) => {},
                    }
                }
            },
            Result::Err(e) => {
                proof {
                    assert(spec_gen_lists(cur, t, strip) == Result::<
                        Seq<Seq<SpecMetaItem>>,
                        DocError,
                    >::Err(e));
                }
                return Result::Err(e);
            },
        }
    }
    proof {
        assert(lists_view(ls@).len() == 0);
        assert(lists_view(out@) + Seq::<Seq<SpecMetaItem>>::empty() =~= lists_view(out@));
    }
    Result::Ok(out)
}

/// Rewrites a declaration, appending to each documented member the
/// metadata items its filled templates yield; a shape with no members to
/// attach to is rejected with [`DocError::NoMembers`].
pub fn gen_attrs(input: Decl, attrs: &Vec<String>, strip: Option<usize>) -> (r: Result<
    Decl,
    DocError,
>)
    ensures
        match r {
            Result::Ok(d2) => spec_gen_attrs(input@, strings_view(attrs@), strip) == Result::<
                SpecDecl,
                DocError,
            >::Ok(d2@),
            Result::Err(e) => spec_gen_attrs(input@, strings_view(attrs@), strip) == Result::<
                SpecDecl,
                DocError,
            >::Err(e),
        },
{
    let ghost d0 = input@;
    let Decl { name, attrs: type_attrs, shape } = input;
    match shape {
        Shape::Named { fields } => match gen_members(fields, attrs, strip) {
            Result::Ok(f2) => {
                let d2 = Decl { name, attrs: type_attrs, shape: Shape::Named { fields: f2 } };
                proof {
                    assert(d2@ =~= (match spec_gen_attrs(d0, strings_view(attrs@), strip) {
                        Result::Ok(x) => x,
                        Result::Err(_) => d2@,
                    }));
                }
                Result::Ok(d2)
            },
            Result::Err(e) => Result::Err(e),
        },
        Shape::Positional { fields } => match gen_lists(fields, attrs, strip) {
            Result::Ok(f2) => {
                let d2 = Decl { name, attrs: type_attrs, shape: Shape::Positional { fields: f2 } };
                proof {
                    assert(d2@ =~= (match spec_gen_attrs(d0, strings_view(attrs@), strip) {
                        Result::Ok(x) => x,
                        Result::Err(_) => d2@,
                    }));
                }
                Result::Ok(d2)
            },
            Result::Err(e) => Result::Err(e),
        },
        Shape::Overlay { fields } => match gen_members(fields, attrs, strip) {
            Result::Ok(f2) => {
                let d2 = Decl { name, attrs: type_attrs, shape: Shape::Overlay { fields: f2 } };
                proof {
                    assert(d2@ =~= (match spec_gen_attrs(d0, strings_view(attrs@), strip) {
                        Result::Ok(x) => x,
                        Result::Err(_) => d2@,
                    }));
                }
                Result::Ok(d2)
            },
            Result::Err(e) => Result::Err(e),
        },
        Shape::Sum { variants } => match gen_members(variants, attrs, strip) {
            Result::Ok(v2) => {
                let d2 = Decl { name, attrs: type_attrs, shape: Shape::Sum { variants: v2 } };
                proof {
                    assert(d2@ =~= (match spec_gen_attrs(d0, strings_view(attrs@), strip) {
                        Result::Ok(x) => x,
                        Result::Err(_) => d2@,
                    }));
                }
                Result::Ok(d2)
            },
            Result::Err(e) => Result::Err(e),
        },
        Shape::Opaque => Result::Err(DocError::NoMembers),
    }
}

/// The template stage of [`spec_doc_impl`], after the lookup artifacts
/// `df` and `dd` were generated from the unmutated declaration.
pub open spec fn spec_doc_impl_rest(
    d: SpecDecl,
    a: SpecAttrs,
    df: Option<SpecDocForImpl>,
    dd: Option<SpecDocDynImpl>,
) -> Result<SpecExpansion, DocError> {
    if a.gen_attrs.len() > 0 {
        match spec_gen_attrs(d, a.gen_attrs, a.strip) {
            Result::Ok(d2) => Result::Ok(SpecExpansion { doc_for: df, doc_dyn: dd, decl: d2 }),
            Result::Err(e) => Result::Err(e),
        }
    } else {
        Result::Ok(SpecExpansion { doc_for: df, doc_dyn: dd, decl: d })
    }
}

/// Everything one invocation produces from a declaration and resolved
/// options: the requested lookup artifacts, generated from the
/// declaration before any mutation, and the re-emitted declaration with
/// any generated member attributes.
pub open spec fn spec_doc_impl(d: SpecDecl, a: SpecAttrs) -> Result<SpecExpansion, DocError> {
    let df = if a.doc_for {
        Option::Some(spec_doc_for_impl(d, a.strip))
    } else {
        Option::None
    };
    if a.doc_dyn {
        match spec_doc_dyn_impl(d, a.strip) {
            Result::Ok(dd) => spec_doc_impl_rest(d, a, df, Option::Some(dd)),
            Result::Err(e) => Result::Err(e),
        }
    } else {
        spec_doc_impl_rest(d, a, df, Option::None)
    }
}

/// Runs one invocation: always derives the type-level documentation text;
/// generates the member lookup and the dynamic variant lookup as the
/// options request; and instantiates the templates onto the re-emitted
/// declaration. The lookups observe the declaration before mutation, so
/// generated attributes never feed back into extraction.
pub fn doc_impl(input: Decl, attrs: &Attrs) -> (r: Result<Expansion, DocError>)
    ensures
        match r {
            Result::Ok(e) => spec_doc_impl(input@, attrs@) == Result::<
                SpecExpansion,
                DocError,
            >::Ok(e@),
            Result::Err(err) => spec_doc_impl(input@, attrs@) == Result::<
                SpecExpansion,
                DocError,
            >::Err(err),
        },
{
    let ghost d0 = input@;
    let doc_for = if attrs.doc_for {
        Option::Some(gen_doc_for_impl(&input, attrs.strip))
    } else {
        Option::None
    };
    let doc_dyn = if attrs.doc_dyn {
        match gen_doc_dyn_impl(&input, attrs.strip) {
            Result::Ok(dd) => Option::Some(dd),
            Result::Err(e) => {
                return Result::Err(e);
            },
        }
    } else {
        Option::None
    };
    let decl = if attrs.gen_attrs.len() > 0 {
        match gen_attrs(input, &attrs.gen_attrs, attrs.strip) {
            Result::Ok(d2) => d2,
            Result::Err(e) => {
                return Result::Err(e);
            },
        }
    } else {
        input
    };
    let e = Expansion { doc_for, doc_dyn, decl };
    proof {
        assert(e@ =~= (match spec_doc_impl(d0, attrs@) {
            Result::Ok(se) => se,
            Result::Err(_) => e@,
        }));
    }
    Result::Ok(e)
}

/// Derives the documentation lookup of a declaration under the default
/// options: nothing is stripped from the documentation lines.
pub fn doc_for_derive(input: Decl) -> (r: DocForImpl)
    ensures
        r@ == spec_doc_for_impl(input@, Option::Some(0)),
{
    gen_doc_for_impl(&input, Option::Some(0))
}

/// Derives the dynamic variant lookup of a sum type under the default
/// options; any other shape is rejected.
pub fn doc_dyn_derive(input: Decl) -> (r: Result<DocDynImpl, DocError>)
    ensures
        match r {
            Result::Ok(dd) => spec_doc_dyn_impl(input@, Option::Some(0)) == Result::<
                SpecDocDynImpl,
                DocError,
            >::Ok(dd@),
            Result::Err(e) => spec_doc_dyn_impl(input@, Option::Some(0)) == Result::<
                SpecDocDynImpl,
                DocError,
            >::Err(e),
        },
{
    gen_doc_dyn_impl(&input, Option::Some(0))
}

} // verus!
