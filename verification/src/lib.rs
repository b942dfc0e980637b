//! Compile-time documentation extraction, modelled as a pure engine.
//!
//! The crate takes the declaration of a product, sum or overlay type
//! together with the metadata items attached to it and to its members,
//! and derives the documentation text of the type and of each member,
//! optionally synthesizing new metadata items from templates.

use vstd::prelude::*;

pub mod attrs;
pub mod engine;
pub mod laws;
pub mod meta;
pub mod template;
pub mod text;

pub use attrs::{Attrs, MetaPair, ValueExpr, parse_bool, parse_option_usize, parse_string};
pub use engine::{
    Arm, DocDynImpl, DocForImpl, Expansion, LookupBody, doc_for_derive, doc_dyn_derive, doc_impl,
    gen_attrs, gen_doc_for_impl, gen_doc_dyn_impl, generate_arm_value, generate_arms,
    generate_arms_enum, generate_arms_index,
};
pub use meta::{Decl, Member, MetaItem, Shape, get_doc};
pub use template::{fill_template, parse_meta_items, quote_lit};

verus! {

/// Capability contract for types whose documentation text is known statically.
pub trait DocFor {
    /// The documentation text of the type, or `None` if it is undocumented.
    fn doc() -> Option<String>;
}

/// Capability contract for sum types that can report the documentation text
/// of whichever variant a value currently holds.
pub trait DocDyn {
    /// The documentation text of the active variant, or `None` if that
    /// variant is undocumented.
    fn doc_dyn(&self) -> Option<String>;
}

/// The errors that configuration parsing and generation can report.
///
/// Absence of documentation is never an error; these arise only from a
/// malformed option list, a capability requested of the wrong shape, or a
/// template that does not expand to exactly one metadata item.
#[derive(Debug, Clone, Copy, PartialEq, Eq, Structural)]
pub enum DocError {
    /// An option key that is not a single plain identifier.
    ExpectedIdent,
    /// The `strip` option was given something other than `all` or an
    /// integer literal.
    ExpectedCountOrAll,
    /// A boolean option was given something other than a boolean literal.
    ExpectedBool,
    /// A string option was given something other than a string literal.
    ExpectedString,
    /// An option key that is not recognized.
    UnknownKey,
    /// Dynamic variant documentation was requested for a shape that is not
    /// a sum type.
    NotSum,
    /// Member attribute generation was requested for a shape with no
    /// members.
    NoMembers,
    /// A filled template expanded to `count` metadata items instead of
    /// exactly one.
    TemplateCount { count: usize },
}

} // verus!
