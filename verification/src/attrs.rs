//! The configuration parser: the value forms an option may carry, the
//! `key = value` pairs of the invocation surface, and the resolved
//! [`Attrs`] option record.

use vstd::prelude::*;
use crate::DocError;
use crate::text::{str_eq, strings_view};

verus! {

/// A value on the right-hand side of one `key = value` option pair.
pub enum ValueExpr {
    /// A bare identifier, such as the marker `all`.
    Ident { name: String },
    /// An integer literal.
    Int { value: usize },
    /// A boolean literal.
    Bool { value: bool },
    /// A string literal.
    Str { value: String },
}

/// The mathematical value of a [`ValueExpr`].
#[verifier::ext_equal]
pub enum SpecValueExpr {
    Ident { name: Seq<char> },
    Int { value: usize },
    Bool { value: bool },
    Str { value: Seq<char> },
}

impl View for ValueExpr {
    type V = SpecValueExpr;

    open spec fn view(&self) -> SpecValueExpr {
        match self {
            ValueExpr::Ident { name } => SpecValueExpr::Ident { name: name@ },
            ValueExpr::Int { value } => SpecValueExpr::Int { value: *value },
            ValueExpr::Bool { value } => SpecValueExpr::Bool { value: *value },
            ValueExpr::Str { value } => SpecValueExpr::Str { value: value@ },
        }
    }
}

/// One `key = value` option pair; the key is a path of identifier
/// segments, of which exactly one is accepted.
pub struct MetaPair {
    pub path: Vec<String>,
    pub value: ValueExpr,
}

/// The mathematical value of a [`MetaPair`].
#[verifier::ext_equal]
pub struct SpecMetaPair {
    pub path: Seq<Seq<char>>,
    pub value: SpecValueExpr,
}

impl View for MetaPair {
    type V = SpecMetaPair;

    open spec fn view(&self) -> SpecMetaPair {
        SpecMetaPair { path: strings_view(self.path@), value: self.value@ }
    }
}

/// The view of a list of option pairs.
pub open spec fn pairs_view(ps: Seq<MetaPair>) -> Seq<SpecMetaPair> {
    Seq::new(ps.len(), |i: int| ps[i]@)
}

/// What parsing a strip-policy value yields: `all` maps to `None`, an
/// integer literal `n` maps to `Some(n)`, all else is rejected.
pub open spec fn spec_parse_option_usize(v: SpecValueExpr) -> Result<Option<usize>, DocError> {
    match v {
        SpecValueExpr::Ident { name } => if name == "all"@ {
            Result::Ok(Option::None)
        } else {
            Result::Err(DocError::ExpectedCountOrAll)
        },
        SpecValueExpr::Int { value } => Result::Ok(Option::Some(value)),
        _ => Result::Err(DocError::ExpectedCountOrAll),
    }
}

/// Parses a strip-policy value, mapping `all` to `None` and an integer
/// literal `n` to `Some(n)`; anything else is rejected.
pub fn parse_option_usize(expr: &ValueExpr) -> (r: Result<Option<usize>, DocError>)
    ensures
        r == spec_parse_option_usize(expr@),
{
    match expr {
        ValueExpr::Ident { name } => if str_eq(name.as_str(), "all") {
            Result::Ok(Option::None)
        } else {
            Result::Err(DocError::ExpectedCountOrAll)
        },
        ValueExpr::Int { value } => Result::Ok(Option::Some(*value)),
        _ => Result::Err(DocError::ExpectedCountOrAll),
    }
}

/// What parsing a boolean value yields: only a boolean literal is accepted.
pub open spec fn spec_parse_bool(v: SpecValueExpr) -> Result<bool, DocError> {
    match v {
        SpecValueExpr::Bool { value } => Result::Ok(value),
        _ => Result::Err(DocError::ExpectedBool),
    }
}

/// Parses a boolean value; anything but a boolean literal is rejected.
pub fn parse_bool(expr: &ValueExpr) -> (r: Result<bool, DocError>)
    ensures
        r == spec_parse_bool(expr@),
{
    match expr {
        ValueExpr::Bool { value } => Result::Ok(*value),
        _ => Result::Err(DocError::ExpectedBool),
    }
}

/// What parsing a string value yields: only a string literal is accepted.
pub open spec fn spec_parse_string(v: SpecValueExpr) -> Result<Seq<char>, DocError> {
    match v {
        SpecValueExpr::Str { value } => Result::Ok(value),
        _ => Result::Err(DocError::ExpectedString),
    }
}

/// Parses a string value; anything but a string literal is rejected.
pub fn parse_string(expr: &ValueExpr) -> (r: Result<String, DocError>)
    ensures
        match r {
            Result::Ok(s) => spec_parse_string(expr@) == Result::<Seq<char>, DocError>::Ok(s@),
            Result::Err(e) => spec_parse_string(expr@) == Result::<Seq<char>, DocError>::Err(e),
        },
{
    match expr {
        ValueExpr::Str { value } => Result::Ok(value.clone()),
        _ => Result::Err(DocError::ExpectedString),
    }
}

/// The resolved options of one invocation.
pub struct Attrs {
    /// How many leading whitespace characters to strip from each
    /// documentation line; `None` strips the whole leading run.
    pub strip: Option<usize>,
    /// Whether to generate the type- and member-level documentation lookup.
    pub doc_for: bool,
    /// Whether to generate the dynamic variant lookup of a sum type.
    pub doc_dyn: bool,
    /// Attribute templates instantiated for each documented member.
    pub gen_attrs: Vec<String>,
}

/// The mathematical value of an [`Attrs`].
#[verifier::ext_equal]
pub struct SpecAttrs {
    pub strip: Option<usize>,
    pub doc_for: bool,
    pub doc_dyn: bool,
    pub gen_attrs: Seq<Seq<char>>,
}

impl View for Attrs {
    type V = SpecAttrs;

    open spec fn view(&self) -> SpecAttrs {
        SpecAttrs {
            strip: self.strip,
            doc_for: self.doc_for,
            doc_dyn: self.doc_dyn,
            gen_attrs: strings_view(self.gen_attrs@),
        }
    }
}

/// The default options: strip nothing, generate the lookup, no dynamic
/// lookup, no templates.
pub open spec fn spec_attrs_default() -> SpecAttrs {
    SpecAttrs {
        strip: Option::Some(0),
        doc_for: true,
        doc_dyn: false,
        gen_attrs: Seq::empty(),
    }
}

impl Default for Attrs {
    /// The default options.
    fn default() -> (r: Self)
        ensures
            r@ == spec_attrs_default(),
    {
        let r = Attrs {
            strip: Option::Some(0),
            doc_for: true,
            doc_dyn: false,
            gen_attrs: Vec::new(),
        };
        proof {
            assert(r@ =~= spec_attrs_default());
        }
        r
    }
}

/// One option pair applied to the options resolved so far.
pub open spec fn spec_attrs_step(acc: SpecAttrs, p: SpecMetaPair) -> Result<SpecAttrs, DocError> {
    if p.path.len() != 1 {
        Result::Err(DocError::ExpectedIdent)
    } else {
        let key = p.path[0];
        if key == "strip"@ {
            match spec_parse_option_usize(p.value) {
                Result::Ok(v) => Result::Ok(
                    SpecAttrs {
                        strip: v,
                        doc_for: acc.doc_for,
                        doc_dyn: acc.doc_dyn,
                        gen_attrs: acc.gen_attrs,
                    },
                ),
                Result::Err(e) => Result::Err(e),
            }
        } else if key == "doc_for"@ {
            match spec_parse_bool(p.value) {
                Result::Ok(v) => Result::Ok(
                    SpecAttrs {
                        strip: acc.strip,
                        doc_for: v,
                        doc_dyn: acc.doc_dyn,
                        gen_attrs: acc.gen_attrs,
                    },
                ),
                Result::Err(e) => Result::Err(e),
            }
        } else if key == "doc_dyn"@ {
            match spec_parse_bool(p.value) {
                Result::Ok(v) => Result::Ok(
                    SpecAttrs {
                        strip: acc.strip,
                        doc_for: acc.doc_for,
                        doc_dyn: v,
                        gen_attrs: acc.gen_attrs,
                    },
                ),
                Result::Err(e) => Result::Err(e),
            }
        } else if key == "gen_attr"@ {
            match spec_parse_string(p.value) {
                Result::Ok(s) => Result::Ok(
                    SpecAttrs {
                        strip: acc.strip,
                        doc_for: acc.doc_for,
                        doc_dyn: acc.doc_dyn,
                        gen_attrs: acc.gen_attrs.push(s),
                    },
                ),
                Result::Err(e) => Result::Err(e),
            }
        } else {
            Result::Err(DocError::UnknownKey)
        }
    }
}

/// The options resolved from a list of pairs applied left to right,
/// starting from `acc`; the first rejected pair rejects the whole list.
pub open spec fn spec_parse_attrs_from(acc: SpecAttrs, pairs: Seq<SpecMetaPair>) -> Result<
    SpecAttrs,
    DocError,
>
    decreases pairs.len(),
{
    if pairs.len() == 0 {
        Result::Ok(acc)
    } else {
        match spec_attrs_step(acc, pairs.first()) {
            Result::Ok(a2) => spec_parse_attrs_from(a2, pairs.drop_first()),
            Result::Err(e) => Result::Err(e),
        }
    }
}

/// The options resolved from the full pair list on top of the defaults.
pub open spec fn spec_parse_attrs(pairs: Seq<SpecMetaPair>) -> Result<SpecAttrs, DocError> {
    spec_parse_attrs_from(spec_attrs_default(), pairs)
}

impl Attrs {
    /// Resolves an option list: a flat sequence of `key = value` pairs,
    /// applied left to right on top of the defaults. Repetition of
    /// `gen_attr` appends a template; any unrecognized or ill-formed pair
    /// rejects the whole list.
    pub fn parse(input: &Vec<MetaPair>) -> (r: Result<Attrs, DocError>)
        ensures
            match r {
                Result::Ok(a) => spec_parse_attrs(pairs_view(input@)) == Result::<
                    SpecAttrs,
                    DocError,
                >::Ok(a@),
                Result::Err(e) => spec_parse_attrs(pairs_view(input@)) == Result::<
                    SpecAttrs,
                    DocError,
                >::Err(e),
            },
    {
        let ghost all = pairs_view(input@);
        proof {
            assert(all.skip(0) =~= all);
        }
        let mut attrs: Attrs = Attrs::default();
        let n: usize = input.len();
        let mut i: usize = 0;
        while i < n
            invariant
                0 <= i <= n,
                n == input.len(),
                all == pairs_view(input@),
                all.len() == n,
                spec_parse_attrs(all) == spec_parse_attrs_from(attrs@, all.skip(i as int)),
            decreases n - i,
        {
            proof {
                assert(all.skip(i as int).first() == all[i as int]);
                assert(all.skip(i as int).drop_first() =~= all.skip(i + 1 as int));
            }
            let ghost acc0 = attrs@;
            let p = &input[i];
            if p.path.len() != 1 {
                return Result::Err(DocError::ExpectedIdent);
            }
            let key: &String = &p.path[0];
            if str_eq(key.as_str(), "strip") {
                match parse_option_usize(&p.value) {
                    Result::Ok(v) => {
                        attrs.strip = v;
                    },
                    Result::Err(e) => {
                        return Result::Err(e);
                    },
                }
            } else if str_eq(key.as_str(), "doc_for") {
                match parse_bool(&p.value) {
                    Result::Ok(v) => {
                        attrs.doc_for = v;
                    },
                    Result::Err(e) => {
                        return Result::Err(e);
                    },
                }
            } else if str_eq(key.as_str(), "doc_dyn") {
                match parse_bool(&p.value) {
                    Result::Ok(v) => {
                        attrs.doc_dyn = v;
                    },
                    Result::Err(e) => {
                        return Result::Err(e);
                    },
                }
            } else if str_eq(key.as_str(), "gen_attr") {
                match parse_string(&p.value) {
                    Result::Ok(s) => {
                        attrs.gen_attrs.push(s);
                        proof {
                            assert(attrs@.gen_attrs =~= acc0.gen_attrs.push(s@));
                            assert(attrs@ =~= (match spec_attrs_step(acc0, all[i as int]) {
                                Result::Ok(a2) => a2,
                                Result::Err(_) => attrs@,
                            }));
                        }
                    },
                    Result::Err(e) => {
                        return Result::Err(e);
                    },
                }
            } else {
                return Result::Err(DocError::UnknownKey);
            }
            i = i + 1;
        }
        proof {
            assert(all.skip(n as int) =~= Seq::<SpecMetaPair>::empty());
        }
        Result::Ok(attrs)
    }
}

} // verus!
