//! The engine's own untyped input tree.
//!
//! A rule arrives as a JSON document; the boundary hands it over as a `Node`
//! so the builder can validate it.  An object node keeps only its member
//! values, in the object's own key order: rule syntax never reads member
//! names.

use vstd::prelude::*;

verus! {

/// An untyped input tree: what a JSON document holds, as the builder reads
/// it.
#[derive(Debug)]
pub enum Node {
    /// JSON null.
    Null,
    /// A JSON boolean.
    Bool(bool),
    /// A JSON number within the 64-bit signed integer range.
    Int(i64),
    /// Any other JSON number, kept opaque.
    Float(serde_json::Number),
    /// A JSON string.
    String(String),
    /// A JSON array.
    Array(Vec<Node>),
    /// The member values of a JSON object, in key order; names are dropped.
    Object(Vec<Node>),
}

/// The mathematical shape of a [`Node`].
pub enum NodeV {
    Null,
    Bool(bool),
    Int(i64),
    Float(serde_json::Number),
    String(Seq<char>),
    Array(Seq<NodeV>),
    Object(Seq<NodeV>),
}

/// The view of a node.
pub open spec fn node_view(n: Node) -> NodeV
    decreases n,
{
    match n {
        Node::Null => NodeV::Null,
        Node::Bool(b) => NodeV::Bool(b),
        Node::Int(i) => NodeV::Int(i),
        Node::Float(x) => NodeV::Float(x),
        Node::String(s) => NodeV::String(s@),
        Node::Array(v) => NodeV::Array(
            Seq::new(
                v@.len(),
                |i: int|
                    if 0 <= i < v@.len() {
                        node_view(v@[i])
                    } else {
                        NodeV::Null
                    },
            ),
        ),
        Node::Object(v) => NodeV::Object(
            Seq::new(
                v@.len(),
                |i: int|
                    if 0 <= i < v@.len() {
                        node_view(v@[i])
                    } else {
                        NodeV::Null
                    },
            ),
        ),
    }
}

/// The views of a sequence of nodes.
pub open spec fn nodes_view(s: Seq<Node>) -> Seq<NodeV> {
    Seq::new(s.len(), |i: int| node_view(s[i]))
}

impl View for Node {
    type V = NodeV;

    open spec fn view(&self) -> NodeV {
        node_view(*self)
    }
}

} // verus!
