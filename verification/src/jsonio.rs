//! The boundary to serde_json.
//!
//! Rules and contexts arrive as serde_json values, which the engine cannot
//! look into.  The trusted items here declare those types and hand their
//! contents over as the engine's own types; an uninterpreted spec function
//! pins what each conversion yields, as a function of the value alone, so
//! that converting the same value twice denotes the same tree.

use vstd::prelude::*;
use crate::arg::{Arg, ArgV, no_expr_v};
use crate::node::{Node, NodeV};

verus! {

/// serde_json's untyped JSON tree.  Opaque to the engine.
#[verifier::external_type_specification]
#[verifier::external_body]
pub struct ExJsonValue(serde_json::Value);

/// serde_json's object type, a key-ordered map.  Opaque to the engine.
#[verifier::external_type_specification]
#[verifier::external_body]
#[verifier::reject_recursive_types(K)]
#[verifier::reject_recursive_types(V)]
pub struct ExJsonMap<K, V>(serde_json::Map<K, V>);

/// The input tree a JSON value denotes: numbers in the 64-bit signed range
/// become integers, other numbers stay opaque, and an object contributes
/// its member values in key order, names dropped.
pub uninterp spec fn json_tree(v: serde_json::Value) -> NodeV;

/// The materialized argument a JSON context value denotes: arrays and
/// objects become argument arrays, never expressions.
pub uninterp spec fn json_mat(v: serde_json::Value) -> ArgV;

/// The materialized key-value mapping a JSON object denotes: each member
/// name mapped to the materialized member value.
pub uninterp spec fn json_dict_view(m: serde_json::Map<String, serde_json::Value>) -> Map<
    Seq<char>,
    ArgV,
>;

/// The materialized field mapping of a JSON value, if it is an object.
pub uninterp spec fn json_fields(v: serde_json::Value) -> Option<Map<Seq<char>, ArgV>>;

/// The input tree a text denotes, if it parses as JSON.
pub uninterp spec fn parsed_doc(s: Seq<char>) -> Option<NodeV>;

/// Relies on serde_json::Value's variants: converts a JSON value into the
/// engine's input tree, one arm per variant; array elements and object
/// member values convert recursively.
#[verifier::external_body]
pub(crate) fn node_from_json(v: &serde_json::Value) -> (r: Node)
    ensures
        r@ == json_tree(*v),
{
    match v {
        serde_json::Value::Null => Node::Null,
        serde_json::Value::Bool(b) => Node::Bool(*b),
        serde_json::Value::Number(n) => match n.as_i64() {
            Some(i) => Node::Int(i),
            None => Node::Float(n.clone()),
        },
        serde_json::Value::String(s) => Node::String(s.clone()),
        serde_json::Value::Array(a) => Node::Array(a.iter().map(node_from_json).collect()),
        serde_json::Value::Object(o) => Node::Object(o.values().map(node_from_json).collect()),
    }
}

/// Relies on serde_json::Value's variants: materializes a JSON context
/// value, arrays and objects becoming argument arrays, one arm per variant.
#[verifier::external_body]
pub(crate) fn arg_materialize(v: &serde_json::Value) -> (r: Arg)
    ensures
        r@ == json_mat(*v),
        no_expr_v(r@),
{
    match v {
        serde_json::Value::Null => Arg::Null,
        serde_json::Value::Bool(b) => Arg::Bool(*b),
        serde_json::Value::Number(n) => match n.as_i64() {
            Some(i) => Arg::Int(i),
            None => Arg::Float(n.clone()),
        },
        serde_json::Value::String(s) => Arg::String(s.clone()),
        serde_json::Value::Array(a) => Arg::Array(a.iter().map(arg_materialize).collect()),
        serde_json::Value::Object(o) => Arg::Array(o.values().map(arg_materialize).collect()),
    }
}

/// Relies on serde_json::Map::get: looks a key up in a JSON object and
/// materializes the found value.
#[verifier::external_body]
pub(crate) fn ctx_lookup(
    m: &serde_json::Map<String, serde_json::Value>,
    key: &str,
) -> (r: Option<Arg>)
    ensures
        r is Some <==> json_dict_view(*m).contains_key(key@),
        r matches Some(a) ==> a@ == json_dict_view(*m)[key@] && no_expr_v(a@),
{
    m.get(key).map(arg_materialize)
}

/// Relies on serde_json::Value::as_object: the borrowed object when the
/// value is one, `None` otherwise.
#[verifier::external_body]
pub(crate) fn value_as_object(v: &serde_json::Value) -> (r: Option<
    &serde_json::Map<String, serde_json::Value>,
>)
    ensures
        r is Some <==> json_fields(*v) is Some,
        r matches Some(m) ==> json_fields(*v) == Some(json_dict_view(*m)),
{
    v.as_object()
}

/// Relies on serde_json::from_str: parses a text as JSON and converts it to
/// the engine's input tree; a text that is not JSON yields the parser's
/// message.
#[verifier::external_body]
pub(crate) fn parse_tree(s: &str) -> (r: Result<Node, String>)
    ensures
        r matches Ok(n) ==> parsed_doc(s@) == Some(n@),
        r is Err <==> parsed_doc(s@) is None,
{
    match serde_json::from_str::<serde_json::Value>(s) {
        Ok(v) => Ok(node_from_json(&v)),
        Err(e) => Err(format!("{}", e)),
    }
}

} // verus!
