//! A small rule engine.
//!
//! A rule is a nested list expression such as `["=", ["var", "a"], 1]`: the
//! first element names an operator, the remaining elements are its arguments,
//! and any argument may itself be such a list.  A rule is built once from a
//! JSON tree and may then be evaluated repeatedly against contexts (flat
//! key-value mappings); evaluation yields a boolean verdict.

pub mod arg;
pub mod error;
pub mod jnum;
pub mod jsonio;
pub mod laws;
pub mod node;
pub mod op;
pub mod rule;
pub mod text;

pub use error::Error;
pub use crate::rule::Rule;
