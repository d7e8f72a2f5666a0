//! The argument type: every runtime datum the engine handles.
//!
//! An argument is a JSON scalar, an array of arguments (produced only when a
//! context value is materialized), or a not-yet-evaluated expression.  One
//! coercion lattice governs every cross-type operation; its counter-intuitive
//! corners — a non-empty string coerces to `false`, a failed numeric parse
//! coerces to zero — are the engine's documented behaviour and are preserved
//! exactly.

use vstd::prelude::*;
use core::cmp::Ordering;
use crate::jnum::{
    jnum_cmp, jnum_eq, jnum_is_zero, jnum_trunc, jnum_text, jnum_parse, jnum_of_i64, num_cmp,
    num_trunc, num_text, num_from_i64, num_parse,
};
use crate::text::{
    parse_i64, i64_text, bool_text, lex_cmp, i64_to_string, parse_i64_str, str_lex_cmp,
};
use crate::error::Error;
use crate::jsonio::{json_mat, json_tree, json_dict_view, node_from_json, arg_materialize, ctx_lookup};
use crate::node::{Node, NodeV, nodes_view};
use crate::op::kind_rank;
use crate::rule::{
    Expr, ExprV, expr_view, build_arg, build_items, build_expr_from, finish_expr, node_items,
    finish_expr_exec, eval_var,
};

verus! {

/// A runtime datum: a JSON scalar, an array, or an unevaluated expression.
#[derive(Debug)]
pub enum Arg {
    /// Absence of a value.
    Null,
    /// A boolean.
    Bool(bool),
    /// A 64-bit signed integer.
    Int(i64),
    /// Any other JSON number, kept opaque.
    Float(serde_json::Number),
    /// A text.
    String(String),
    /// An ordered sequence of arguments; produced only by materializing a
    /// context value, never by literal tree construction.
    Array(Vec<Arg>),
    /// An unevaluated sub-expression; none remain in the result of a
    /// completed evaluation.
    Expr(Expr),
}

/// The mathematical shape of an [`Arg`].
pub enum ArgV {
    Null,
    Bool(bool),
    Int(i64),
    Float(serde_json::Number),
    String(Seq<char>),
    Array(Seq<ArgV>),
    Expr(ExprV),
}

/// The view of an argument.
pub open spec fn arg_view(a: Arg) -> ArgV
    decreases a,
{
    match a {
        Arg::Null => ArgV::Null,
        Arg::Bool(b) => ArgV::Bool(b),
        Arg::Int(i) => ArgV::Int(i),
        Arg::Float(n) => ArgV::Float(n),
        Arg::String(s) => ArgV::String(s@),
        Arg::Array(v) => ArgV::Array(
            Seq::new(
                v@.len(),
                |i: int|
                    if 0 <= i < v@.len() {
                        arg_view(v@[i])
                    } else {
                        ArgV::Null
                    },
            ),
        ),
        Arg::Expr(e) => ArgV::Expr(expr_view(e)),
    }
}

/// The views of a sequence of arguments.
pub open spec fn args_view(s: Seq<Arg>) -> Seq<ArgV> {
    Seq::new(s.len(), |i: int| arg_view(s[i]))
}

impl View for Arg {
    type V = ArgV;

    open spec fn view(&self) -> ArgV {
        arg_view(*self)
    }
}

// ---------------------------------------------------------------------------
// the coercion lattice

/// An argument as a boolean: null is false, numbers are true when non-zero,
/// and a string is true exactly when it is empty — the engine's documented
/// quirk, preserved rather than corrected.
pub open spec fn to_bool_v(a: ArgV) -> bool {
    match a {
        ArgV::Null => false,
        ArgV::Bool(b) => b,
        ArgV::Int(i) => i != 0,
        ArgV::Float(n) => !jnum_is_zero(n),
        ArgV::String(s) => s.len() == 0,
        ArgV::Array(_) => false,
        ArgV::Expr(_) => false,
    }
}

/// An argument as an integer: booleans count, floats truncate, strings are
/// parsed with zero as the silent fallback, everything else is zero.
pub open spec fn to_i64_v(a: ArgV) -> i64 {
    match a {
        ArgV::Null => 0,
        ArgV::Bool(b) => if b {
            1
        } else {
            0
        },
        ArgV::Int(i) => i,
        ArgV::Float(n) => jnum_trunc(n),
        ArgV::String(s) => match parse_i64(s) {
            Some(i) => i,
            None => 0,
        },
        ArgV::Array(_) => 0,
        ArgV::Expr(_) => 0,
    }
}

/// An argument as a text: scalars print canonically, arrays and expressions
/// are empty.
pub open spec fn to_text_v(a: ArgV) -> Seq<char> {
    match a {
        ArgV::Null => Seq::empty(),
        ArgV::Bool(b) => bool_text(b),
        ArgV::Int(i) => i64_text(i),
        ArgV::Float(n) => jnum_text(n),
        ArgV::String(s) => s,
        ArgV::Array(_) => Seq::empty(),
        ArgV::Expr(_) => Seq::empty(),
    }
}

/// An argument as a JSON number, for float arithmetic: strings are parsed
/// with zero as the silent fallback, everything non-numeric is zero.
pub open spec fn to_jnum_v(a: ArgV) -> serde_json::Number {
    match a {
        ArgV::Null => jnum_of_i64(0),
        ArgV::Bool(b) => jnum_of_i64(
            if b {
                1
            } else {
                0
            },
        ),
        ArgV::Int(i) => jnum_of_i64(i),
        ArgV::Float(n) => n,
        ArgV::String(s) => match jnum_parse(s) {
            Some(n) => n,
            None => jnum_of_i64(0),
        },
        ArgV::Array(_) => jnum_of_i64(0),
        ArgV::Expr(_) => jnum_of_i64(0),
    }
}

/// Whether an argument holds no unevaluated sub-expression anywhere.  Every
/// materialized context value satisfies this, and so does the result of a
/// completed evaluation.
pub open spec fn no_expr_v(a: ArgV) -> bool
    decreases a,
{
    match a {
        ArgV::Expr(_) => false,
        ArgV::Array(x) => forall|i: int| 0 <= i < x.len() ==> no_expr_v(#[trigger] x[i]),
        _ => true,
    }
}

// ---------------------------------------------------------------------------
// structural equality and order

/// One more than the number of direct children of an argument; the
/// secondary termination measure for the comparison functions.
pub open spec fn breadth(a: ArgV) -> int {
    match a {
        ArgV::Array(x) => x.len() as int + 1,
        ArgV::Expr(e) => e.args.len() as int + 1,
        _ => 1,
    }
}

/// The position of a variant in the declaration order; arguments of
/// different variants order by this rank alone.
pub open spec fn rank(a: ArgV) -> int {
    match a {
        ArgV::Null => 0,
        ArgV::Bool(_) => 1,
        ArgV::Int(_) => 2,
        ArgV::Float(_) => 3,
        ArgV::String(_) => 4,
        ArgV::Array(_) => 5,
        ArgV::Expr(_) => 6,
    }
}

/// Structural equality of two arguments: same variant, equal contents;
/// floats compare by value.
pub open spec fn eq_v(a: ArgV, b: ArgV) -> bool
    decreases a,
{
    match (a, b) {
        (ArgV::Null, ArgV::Null) => true,
        (ArgV::Bool(x), ArgV::Bool(y)) => x == y,
        (ArgV::Int(x), ArgV::Int(y)) => x == y,
        (ArgV::Float(x), ArgV::Float(y)) => jnum_eq(x, y),
        (ArgV::String(x), ArgV::String(y)) => x == y,
        (ArgV::Array(x), ArgV::Array(y)) => x.len() == y.len() && (forall|i: int|
            0 <= i < x.len() ==> eq_v(#[trigger] x[i], y[i])),
        (ArgV::Expr(x), ArgV::Expr(y)) => x.name == y.name && x.kind == y.kind && x.args.len()
            == y.args.len() && (forall|i: int|
            0 <= i < x.args.len() ==> eq_v(#[trigger] x.args[i], y.args[i])),
        _ => false,
    }
}

/// The order of two same-rank sequences of arguments, element by element
/// from position `i`: the first non-equal pair decides, a shared prefix
/// orders by length.
pub open spec fn cmp_arr_from(a: ArgV, b: ArgV, i: int) -> Option<Ordering>
    recommends
        a is Array,
        b is Array,
        0 <= i,
    decreases a, (if a is Array { a->Array_0.len() } else { 0 }) - i,
{
    let x = a->Array_0;
    let y = b->Array_0;
    if i >= x.len() && i >= y.len() {
        Some(Ordering::Equal)
    } else if i >= x.len() {
        Some(Ordering::Less)
    } else if i >= y.len() {
        Some(Ordering::Greater)
    } else if i < 0 || !(a is Array) {
        None
    } else {
        proof {
            assert(decreases_to!(a => a->Array_0));
            assert(decreases_to!(a->Array_0 => a->Array_0[i]));
        }
        match cmp_v(a->Array_0[i], y[i]) {
            Some(Ordering::Equal) => cmp_arr_from(a, b, i + 1),
            other => other,
        }
    }
}

/// The order of the argument lists of two expressions, element by element
/// from position `i`.
pub open spec fn cmp_expr_args_from(a: ArgV, b: ArgV, i: int) -> Option<Ordering>
    recommends
        a is Expr,
        b is Expr,
        0 <= i,
    decreases a, (if a is Expr { a->Expr_0.args.len() } else { 0 }) - i,
{
    let x = a->Expr_0.args;
    let y = b->Expr_0.args;
    if i >= x.len() && i >= y.len() {
        Some(Ordering::Equal)
    } else if i >= x.len() {
        Some(Ordering::Less)
    } else if i >= y.len() {
        Some(Ordering::Greater)
    } else if i < 0 || !(a is Expr) {
        None
    } else {
        proof {
            assert(decreases_to!(a => a->Expr_0));
            assert(decreases_to!(a->Expr_0 => a->Expr_0.args));
            assert(decreases_to!(a->Expr_0.args => a->Expr_0.args[i]));
        }
        match cmp_v(a->Expr_0.args[i], y[i]) {
            Some(Ordering::Equal) => cmp_expr_args_from(a, b, i + 1),
            other => other,
        }
    }
}

/// The partial order of two arguments: different variants order by rank;
/// equal variants order by contents; every comparison the engine can reach
/// is defined, stable and consistent, though not always meaningful.
pub open spec fn cmp_v(a: ArgV, b: ArgV) -> Option<Ordering>
    decreases a, breadth(a),
{
    if rank(a) < rank(b) {
        Some(Ordering::Less)
    } else if rank(a) > rank(b) {
        Some(Ordering::Greater)
    } else {
        match (a, b) {
            (ArgV::Null, ArgV::Null) => Some(Ordering::Equal),
            (ArgV::Bool(x), ArgV::Bool(y)) => if x == y {
                Some(Ordering::Equal)
            } else if !x {
                Some(Ordering::Less)
            } else {
                Some(Ordering::Greater)
            },
            (ArgV::Int(x), ArgV::Int(y)) => if x < y {
                Some(Ordering::Less)
            } else if x > y {
                Some(Ordering::Greater)
            } else {
                Some(Ordering::Equal)
            },
            (ArgV::Float(x), ArgV::Float(y)) => Some(jnum_cmp(x, y)),
            (ArgV::String(x), ArgV::String(y)) => Some(lex_cmp(x, y)),
            (ArgV::Array(_), ArgV::Array(_)) => cmp_arr_from(a, b, 0),
            (ArgV::Expr(x), ArgV::Expr(y)) => {
                let nc = lex_cmp(x.name, y.name);
                if nc != Ordering::Equal {
                    Some(nc)
                } else if kind_rank(x.kind) < kind_rank(y.kind) {
                    Some(Ordering::Less)
                } else if kind_rank(x.kind) > kind_rank(y.kind) {
                    Some(Ordering::Greater)
                } else {
                    cmp_expr_args_from(a, b, 0)
                }
            },
            _ => None,
        }
    }
}

/// Whether `a` is strictly below `b` in the argument order.
pub open spec fn lt_v(a: ArgV, b: ArgV) -> bool {
    cmp_v(a, b) == Some(Ordering::Less)
}

/// Whether `a` is below or equal to `b` in the argument order.
pub open spec fn le_v(a: ArgV, b: ArgV) -> bool {
    cmp_v(a, b) == Some(Ordering::Less) || cmp_v(a, b) == Some(Ordering::Equal)
}

/// Whether `a` is strictly above `b` in the argument order.
pub open spec fn gt_v(a: ArgV, b: ArgV) -> bool {
    cmp_v(a, b) == Some(Ordering::Greater)
}

/// Whether `a` is above or equal to `b` in the argument order.
pub open spec fn ge_v(a: ArgV, b: ArgV) -> bool {
    cmp_v(a, b) == Some(Ordering::Greater) || cmp_v(a, b) == Some(Ordering::Equal)
}

// ---------------------------------------------------------------------------
// executable coercions

impl Arg {
    /// If the argument is a boolean, the boolean itself; `None` otherwise.
    pub fn as_bool(&self) -> (r: Option<bool>)
        ensures
            r is Some <==> self@ is Bool,
            r matches Some(b) ==> self@ == ArgV::Bool(b),
    {
        match *self {
            Arg::Bool(v) => Some(v),
            _ => None,
        }
    }

    /// If the argument is a string, the string itself; `None` otherwise.
    pub fn as_str(&self) -> (r: Option<&str>)
        ensures
            r is Some <==> self@ is String,
            r matches Some(s) ==> self@ == ArgV::String(s@),
    {
        match *self {
            Arg::String(ref v) => Some(v.as_str()),
            _ => None,
        }
    }

    /// The argument as a boolean, under the coercion lattice.
    pub fn coerce_bool(&self) -> (r: bool)
        ensures
            r == to_bool_v(self@),
    {
        match self {
            Arg::Null => false,
            Arg::Bool(v) => *v,
            Arg::Int(v) => *v != 0,
            Arg::Float(n) => {
                let z = num_from_i64(0);
                match num_cmp(n, &z) {
                    Ordering::Equal => false,
                    _ => true,
                }
            },
            Arg::String(v) => v.as_str().is_empty(),
            Arg::Array(_) => false,
            Arg::Expr(_) => false,
        }
    }

    /// The argument as an integer, under the coercion lattice.
    pub fn coerce_i64(&self) -> (r: i64)
        ensures
            r == to_i64_v(self@),
    {
        match self {
            Arg::Null => 0,
            Arg::Bool(v) => if *v {
                1
            } else {
                0
            },
            Arg::Int(v) => *v,
            Arg::Float(n) => num_trunc(n),
            Arg::String(v) => match parse_i64_str(v.as_str()) {
                Some(i) => i,
                None => 0,
            },
            Arg::Array(_) => 0,
            Arg::Expr(_) => 0,
        }
    }

    /// The argument as a text, under the coercion lattice.
    pub fn coerce_string(&self) -> (r: String)
        ensures
            r@ == to_text_v(self@),
    {
        match self {
            Arg::Null => String::new(),
            Arg::Bool(v) => {
                proof {
                    reveal_strlit("true");
                    reveal_strlit("false");
                }
                let s = if *v {
                    String::from_str("true")
                } else {
                    String::from_str("false")
                };
                proof {
                    assert(s@ =~= bool_text(self@->Bool_0));
                }
                s
            },
            Arg::Int(v) => i64_to_string(*v),
            Arg::Float(n) => num_text(n),
            Arg::String(v) => v.clone(),
            Arg::Array(_) => String::new(),
            Arg::Expr(_) => String::new(),
        }
    }

    /// The argument as a JSON number, under the coercion lattice.
    pub fn coerce_jnum(&self) -> (r: serde_json::Number)
        ensures
            r == to_jnum_v(self@),
    {
        match self {
            Arg::Null => num_from_i64(0),
            Arg::Bool(v) => num_from_i64(
                if *v {
                    1
                } else {
                    0
                },
            ),
            Arg::Int(v) => num_from_i64(*v),
            Arg::Float(n) => n.clone(),
            Arg::String(v) => match num_parse(v.as_str()) {
                Some(n) => n,
                None => num_from_i64(0),
            },
            Arg::Array(_) => num_from_i64(0),
            Arg::Expr(_) => num_from_i64(0),
        }
    }

    /// An identical copy of the argument.
    #[verifier::loop_isolation(false)]
    pub fn duplicate(&self) -> (r: Arg)
        ensures
            r@ == self@,
        decreases self,
    {
        match self {
            Arg::Null => Arg::Null,
            Arg::Bool(v) => Arg::Bool(*v),
            Arg::Int(v) => Arg::Int(*v),
            Arg::Float(n) => Arg::Float(n.clone()),
            Arg::String(v) => Arg::String(v.clone()),
            Arg::Array(v) => {
                let mut out: Vec<Arg> = Vec::new();
                let n = v.len();
                let mut i: usize = 0;
                while i < n
                    invariant
                        0 <= i <= n,
                        n == v@.len(),
                        out@.len() == i,
                        forall|k: int| 0 <= k < i ==> arg_view(#[trigger] out@[k]) == arg_view(
                            v@[k],
                        ),
                    decreases n - i,
                {
                    proof {
                        assert(decreases_to!(*self => (*self)->Array_0));
                        assert(decreases_to!(*v => v@));
                        assert(decreases_to!(v@ => v@[i as int]));
                    }
                    let d = v[i].duplicate();
                    out.push(d);
                    i = i + 1;
                }
                let r = Arg::Array(out);
                proof {
                    assert(r@->Array_0 =~= self@->Array_0);
                }
                r
            },
            Arg::Expr(e) => Arg::Expr(e.duplicate()),
        }
    }
}

// ---------------------------------------------------------------------------
// executable equality and order

/// Structural equality of two arguments.
#[verifier::loop_isolation(false)]
pub fn arg_eq(a: &Arg, b: &Arg) -> (r: bool)
    ensures
        r == eq_v(a@, b@),
    decreases a,
{
    match (a, b) {
        (Arg::Null, Arg::Null) => true,
        (Arg::Bool(x), Arg::Bool(y)) => *x == *y,
        (Arg::Int(x), Arg::Int(y)) => *x == *y,
        (Arg::Float(x), Arg::Float(y)) => match num_cmp(x, y) {
            Ordering::Equal => true,
            _ => false,
        },
        (Arg::String(x), Arg::String(y)) => x.eq(y),
        (Arg::Array(x), Arg::Array(y)) => {
            if x.len() != y.len() {
                assert(a@->Array_0.len() != b@->Array_0.len());
                return false;
            }
            let n = x.len();
            let mut i: usize = 0;
            while i < n
                invariant
                    0 <= i <= n,
                    n == x@.len(),
                    n == y@.len(),
                    a@ == arg_view(Arg::Array(*x)),
                    b@ == arg_view(Arg::Array(*y)),
                    forall|k: int| 0 <= k < i ==> eq_v(
                        #[trigger] arg_view(x@[k]),
                        arg_view(y@[k]),
                    ),
                decreases n - i,
            {
                proof {
                    assert(decreases_to!(*a => (*a)->Array_0));
                    assert(decreases_to!(*x => x@));
                    assert(decreases_to!(x@ => x@[i as int]));
                }
                if !arg_eq(&x[i], &y[i]) {
                    assert(!eq_v(a@->Array_0[i as int], b@->Array_0[i as int]));
                    return false;
                }
                i = i + 1;
            }
            assert forall|k: int| 0 <= k < a@->Array_0.len() implies eq_v(
                #[trigger] a@->Array_0[k],
                b@->Array_0[k],
            ) by {
                assert(a@->Array_0[k] == arg_view(x@[k]));
                assert(b@->Array_0[k] == arg_view(y@[k]));
            }
            true
        },
        (Arg::Expr(x), Arg::Expr(y)) => crate::rule::expr_eq(x, y),
        _ => false,
    }
}

/// The position of an argument's variant in the declaration order.
pub fn rank_ix(a: &Arg) -> (r: u8)
    ensures
        r as int == rank(a@),
{
    match a {
        Arg::Null => 0,
        Arg::Bool(_) => 1,
        Arg::Int(_) => 2,
        Arg::Float(_) => 3,
        Arg::String(_) => 4,
        Arg::Array(_) => 5,
        Arg::Expr(_) => 6,
    }
}

/// The partial order of two arguments.
#[verifier::loop_isolation(false)]
pub fn arg_cmp(a: &Arg, b: &Arg) -> (r: Option<Ordering>)
    ensures
        r == cmp_v(a@, b@),
    decreases a,
{
    let ra = rank_ix(a);
    let rb = rank_ix(b);
    if ra < rb {
        return Some(Ordering::Less);
    }
    if ra > rb {
        return Some(Ordering::Greater);
    }
    match (a, b) {
        (Arg::Null, Arg::Null) => Some(Ordering::Equal),
        (Arg::Bool(x), Arg::Bool(y)) => {
            if *x == *y {
                Some(Ordering::Equal)
            } else if !*x {
                Some(Ordering::Less)
            } else {
                Some(Ordering::Greater)
            }
        },
        (Arg::Int(x), Arg::Int(y)) => {
            if *x < *y {
                Some(Ordering::Less)
            } else if *x > *y {
                Some(Ordering::Greater)
            } else {
                Some(Ordering::Equal)
            }
        },
        (Arg::Float(x), Arg::Float(y)) => Some(num_cmp(x, y)),
        (Arg::String(x), Arg::String(y)) => Some(str_lex_cmp(x.as_str(), y.as_str())),
        (Arg::Array(x), Arg::Array(y)) => {
            let xn = x.len();
            let yn = y.len();
            let mut i: usize = 0;
            loop
                invariant
                    0 <= i <= xn,
                    i <= yn,
                    cmp_v(a@, b@) == cmp_arr_from(a@, b@, i as int),
                decreases xn - i,
            {
                if i >= xn && i >= yn {
                    return Some(Ordering::Equal);
                }
                if i >= xn {
                    return Some(Ordering::Less);
                }
                if i >= yn {
                    return Some(Ordering::Greater);
                }
                proof {
                    assert(decreases_to!(*a => (*a)->Array_0));
                    assert(decreases_to!(*x => x@));
                    assert(decreases_to!(x@ => x@[i as int]));
                }
                let c = arg_cmp(&x[i], &y[i]);
                match c {
                    Some(Ordering::Equal) => {
                        proof {
                            assert(a@->Array_0[i as int] == arg_view(x@[i as int]));
                            assert(b@->Array_0[i as int] == arg_view(y@[i as int]));
                        }
                        i = i + 1;
                    },
                    other => {
                        proof {
                            assert(a@->Array_0[i as int] == arg_view(x@[i as int]));
                            assert(b@->Array_0[i as int] == arg_view(y@[i as int]));
                        }
                        return other;
                    },
                }
            }
        },
        (Arg::Expr(x), Arg::Expr(y)) => {
            proof {
                assert(a@ == ArgV::Expr(expr_view(*x)));
                assert(b@ == ArgV::Expr(expr_view(*y)));
            }
            let nc = str_lex_cmp(x.op.name.as_str(), y.op.name.as_str());
            match nc {
                Ordering::Equal => {},
                other => {
                    return Some(other);
                },
            }
            let kx = crate::op::kind_rank_ix(x.op.kind);
            let ky = crate::op::kind_rank_ix(y.op.kind);
            if kx < ky {
                return Some(Ordering::Less);
            }
            if kx > ky {
                return Some(Ordering::Greater);
            }
            let xn = x.args.len();
            let yn = y.args.len();
            let mut i: usize = 0;
            loop
                invariant
                    0 <= i <= xn,
                    i <= yn,
                    cmp_v(a@, b@) == cmp_expr_args_from(a@, b@, i as int),
                decreases xn - i,
            {
                if i >= xn && i >= yn {
                    return Some(Ordering::Equal);
                }
                if i >= xn {
                    return Some(Ordering::Less);
                }
                if i >= yn {
                    return Some(Ordering::Greater);
                }
                proof {
                    assert(decreases_to!(*a => (*a)->Expr_0));
                    assert(decreases_to!((*a)->Expr_0 => x.args));
                    assert(decreases_to!(x.args => x.args@));
                    assert(decreases_to!(x.args@ => x.args@[i as int]));
                }
                let c = arg_cmp(&x.args[i], &y.args[i]);
                match c {
                    Some(Ordering::Equal) => {
                        proof {
                            assert(a@->Expr_0.args[i as int] == arg_view(x.args@[i as int]));
                            assert(b@->Expr_0.args[i as int] == arg_view(y.args@[i as int]));
                        }
                        i = i + 1;
                    },
                    other => {
                        proof {
                            assert(a@->Expr_0.args[i as int] == arg_view(x.args@[i as int]));
                            assert(b@->Expr_0.args[i as int] == arg_view(y.args@[i as int]));
                        }
                        return other;
                    },
                }
            }
        },
        _ => {
            proof {
                assert(false);
            }
            None
        },
    }
}


// ---------------------------------------------------------------------------
// building and context resolution

impl Arg {
    /// Builds an argument from a tree node: scalars map directly, arrays
    /// and objects recursively become unevaluated expressions.
    #[verifier::loop_isolation(false)]
    pub fn from_node(n: &Node) -> (r: Result<Arg, Error>)
        ensures
            r matches Ok(a) ==> build_arg(n@) == Ok::<ArgV, Error>(a@),
            r matches Err(e) ==> build_arg(n@) == Err::<ArgV, Error>(e),
        decreases n,
    {
        match n {
            Node::Null => Ok(Arg::Null),
            Node::Bool(b) => Ok(Arg::Bool(*b)),
            Node::Int(i) => Ok(Arg::Int(*i)),
            Node::Float(x) => Ok(Arg::Float(x.clone())),
            Node::String(s) => Ok(Arg::String(s.clone())),
            Node::Array(v) => {
                let ghost parent = n@;
                proof {
                    assert(node_items(parent) =~= nodes_view(v@));
                }
                let mut cargs: Vec<Arg> = Vec::new();
                let nn = v.len();
                let mut i: usize = 0;
                while i < nn
                    invariant
                        0 <= i <= nn,
                        cargs@.len() == i,
                        (build_items(parent, i as int) matches Ok(rest) ==> build_items(parent, 0)
                            == Ok::<Seq<ArgV>, Error>(args_view(cargs@) + rest)),
                        (build_items(parent, i as int) matches Err(er) ==> build_items(parent, 0)
                            == Err::<Seq<ArgV>, Error>(er)),
                    decreases nn - i,
                {
                    proof {
                        assert(decreases_to!(*n => (*n)->Array_0));
                        assert(decreases_to!(*v => v@));
                        assert(decreases_to!(v@ => v@[i as int]));
                        assert(node_items(parent)[i as int] == v@[i as int]@);
                    }
                    match Arg::from_node(&v[i]) {
                        Ok(a) => {
                            proof {
                                let rest_next = build_items(parent, i as int + 1);
                                if rest_next is Ok {
                                    assert(args_view(cargs@.push(a)) =~= args_view(cargs@) + seq![
                                        a@,
                                    ]);
                                    assert(args_view(cargs@) + (seq![a@] + rest_next->Ok_0) =~= (
                                    args_view(cargs@) + seq![a@]) + rest_next->Ok_0);
                                }
                            }
                            cargs.push(a);
                        },
                        Err(er) => {
                            return Err(er);
                        },
                    }
                    i = i + 1;
                }
                proof {
                    assert(build_items(parent, nn as int) == Ok::<Seq<ArgV>, Error>(Seq::empty()));
                    assert(args_view(cargs@) + Seq::<ArgV>::empty() =~= args_view(cargs@));
                }
                match finish_expr_exec(cargs) {
                    Ok(e) => Ok(Arg::Expr(e)),
                    Err(er) => Err(er),
                }
            },
            Node::Object(v) => {
                let ghost parent = n@;
                proof {
                    assert(node_items(parent) =~= nodes_view(v@));
                }
                let mut cargs: Vec<Arg> = Vec::new();
                let nn = v.len();
                let mut i: usize = 0;
                while i < nn
                    invariant
                        0 <= i <= nn,
                        cargs@.len() == i,
                        (build_items(parent, i as int) matches Ok(rest) ==> build_items(parent, 0)
                            == Ok::<Seq<ArgV>, Error>(args_view(cargs@) + rest)),
                        (build_items(parent, i as int) matches Err(er) ==> build_items(parent, 0)
                            == Err::<Seq<ArgV>, Error>(er)),
                    decreases nn - i,
                {
                    proof {
                        assert(decreases_to!(*n => (*n)->Object_0));
                        assert(decreases_to!(*v => v@));
                        assert(decreases_to!(v@ => v@[i as int]));
                        assert(node_items(parent)[i as int] == v@[i as int]@);
                    }
                    match Arg::from_node(&v[i]) {
                        Ok(a) => {
                            proof {
                                let rest_next = build_items(parent, i as int + 1);
                                if rest_next is Ok {
                                    assert(args_view(cargs@.push(a)) =~= args_view(cargs@) + seq![
                                        a@,
                                    ]);
                                    assert(args_view(cargs@) + (seq![a@] + rest_next->Ok_0) =~= (
                                    args_view(cargs@) + seq![a@]) + rest_next->Ok_0);
                                }
                            }
                            cargs.push(a);
                        },
                        Err(er) => {
                            return Err(er);
                        },
                    }
                    i = i + 1;
                }
                proof {
                    assert(build_items(parent, nn as int) == Ok::<Seq<ArgV>, Error>(Seq::empty()));
                    assert(args_view(cargs@) + Seq::<ArgV>::empty() =~= args_view(cargs@));
                }
                match finish_expr_exec(cargs) {
                    Ok(e) => Ok(Arg::Expr(e)),
                    Err(er) => Err(er),
                }
            },
        }
    }

    /// Builds an argument from a JSON value: a JSON array becomes an
    /// unevaluated expression.
    pub fn from_json(val: serde_json::Value) -> (r: Result<Arg, Error>)
        ensures
            r matches Ok(a) ==> build_arg(json_tree(val)) == Ok::<ArgV, Error>(a@),
            r matches Err(e) ==> build_arg(json_tree(val)) == Err::<ArgV, Error>(e),
    {
        let nd = node_from_json(&val);
        Arg::from_node(&nd)
    }

    /// Materializes a JSON context value: a JSON array becomes an argument
    /// array, never an expression.  Total: every JSON value materializes.
    pub fn from_json_context_var(val: serde_json::Value) -> (r: Result<Arg, Error>)
        ensures
            r is Ok,
            r matches Ok(a) ==> a@ == json_mat(val) && no_expr_v(a@),
    {
        Ok(arg_materialize(&val))
    }

    /// Looks the first argument up in the context, as the `var` operator
    /// does: the argument must be a string naming a context entry, and both
    /// failures are typed errors.
    pub fn from_context_var(
        args: &Vec<Arg>,
        context: &serde_json::Map<String, serde_json::Value>,
    ) -> (r: Result<Arg, Error>)
        ensures
            r matches Ok(a) ==> eval_var(args_view(args@), json_dict_view(*context)) == Ok::<
                ArgV,
                Error,
            >(a@) && no_expr_v(a@),
            r matches Err(e) ==> eval_var(args_view(args@), json_dict_view(*context)) == Err::<
                ArgV,
                Error,
            >(e),
    {
        if args.len() == 0 {
            return Err(Error::ExprVarArgNotStringError);
        }
        match args[0].as_str() {
            None => Err(Error::ExprVarArgNotStringError),
            Some(k) => match ctx_lookup(context, k) {
                Some(a) => Ok(a),
                None => Err(Error::ContextNoSuchVarError),
            },
        }
    }
}

} // verus!


