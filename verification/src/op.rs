//! The operator catalog.
//!
//! An operator is a name bound to one of a fixed set of pure functions over
//! argument lists.  The catalog is immutable and the lookup is a pure,
//! case-sensitive function of the name; several aliases share one function.

use vstd::prelude::*;
use core::cmp::Ordering;
use crate::arg::{
    Arg, ArgV, args_view, arg_view, eq_v, lt_v, le_v, gt_v, ge_v, to_bool_v, to_i64_v, to_text_v,
    to_jnum_v, arg_eq, arg_cmp,
};
use crate::error::Error;
use crate::jnum::{jnum_add, jnum_sub, jnum_mul, jnum_div, jnum_rem, jnum_is_zero, num_add,
    num_sub, num_mul, num_div, num_rem, num_cmp, num_from_i64, num_parse, jnum_parse,
};
use crate::text::{
    str_eq_str, split_of, join_of, lower_of, upper_of, parse_i64, texts_view, split_string,
    str_lower, str_upper, str_starts_with, str_ends_with, lemma_join_push, parse_i64_str,
};

verus! {

/// Which builtin function an operator name is bound to.
#[derive(Clone, Copy, Debug, PartialEq, Eq, Structural)]
pub enum OpKind {
    /// Context lookup; intercepted by the evaluator, never dispatched.
    Var,
    /// Chained equality.
    OpEq,
    /// Chained strictly-less.
    OpLt,
    /// Chained less-or-equal.
    OpLe,
    /// Chained inequality of adjacent arguments.
    OpNe,
    /// Chained greater-or-equal.
    OpGe,
    /// Chained strictly-greater.
    OpGt,
    /// Boolean conjunction of all arguments.
    OpAnd,
    /// Boolean disjunction of all arguments.
    OpOr,
    /// Boolean negation of the first argument.
    OpNot,
    /// Left fold of addition (or concatenation on a string subject).
    OpAdd,
    /// Left fold of subtraction.
    OpSub,
    /// Integer negation of the first argument.
    OpNeg,
    /// Left fold of multiplication.
    OpMul,
    /// Left fold of division.
    OpDiv,
    /// Left fold of remainder.
    OpRem,
    /// Integer absolute value of the first argument.
    OpAbs,
    /// Membership of the first argument among the rest.
    OpIn,
    /// Prefix test on a string or array subject.
    OpStartsWith,
    /// Suffix test on a string or array subject.
    OpEndsWith,
    /// Split a string subject on a separator.
    OpSplit,
    /// Join arguments with a separator.
    OpJoin,
    /// Lower-case the first argument's text.
    OpLower,
    /// Upper-case the first argument's text.
    OpUpper,
    /// Shell-glob match of the second argument against the first.
    OpMatch,
    /// Regular-expression match of the second argument against the first.
    OpRegex,
    /// Cast the first argument to a number.
    OpNum,
    /// Cast the first argument to a string.
    OpString,
}

/// The position of a kind in the catalog's declaration order; gives operator
/// values a stable, implementation-defined order.
pub open spec fn kind_rank(k: OpKind) -> int {
    match k {
        OpKind::Var => 0,
        OpKind::OpEq => 1,
        OpKind::OpLt => 2,
        OpKind::OpLe => 3,
        OpKind::OpNe => 4,
        OpKind::OpGe => 5,
        OpKind::OpGt => 6,
        OpKind::OpAnd => 7,
        OpKind::OpOr => 8,
        OpKind::OpNot => 9,
        OpKind::OpAdd => 10,
        OpKind::OpSub => 11,
        OpKind::OpNeg => 12,
        OpKind::OpMul => 13,
        OpKind::OpDiv => 14,
        OpKind::OpRem => 15,
        OpKind::OpAbs => 16,
        OpKind::OpIn => 17,
        OpKind::OpStartsWith => 18,
        OpKind::OpEndsWith => 19,
        OpKind::OpSplit => 20,
        OpKind::OpJoin => 21,
        OpKind::OpLower => 22,
        OpKind::OpUpper => 23,
        OpKind::OpMatch => 24,
        OpKind::OpRegex => 25,
        OpKind::OpNum => 26,
        OpKind::OpString => 27,
    }
}

/// The position of a kind in the catalog's declaration order.
pub fn kind_rank_ix(k: OpKind) -> (r: u8)
    ensures
        r as int == kind_rank(k),
{
    match k {
        OpKind::Var => 0,
        OpKind::OpEq => 1,
        OpKind::OpLt => 2,
        OpKind::OpLe => 3,
        OpKind::OpNe => 4,
        OpKind::OpGe => 5,
        OpKind::OpGt => 6,
        OpKind::OpAnd => 7,
        OpKind::OpOr => 8,
        OpKind::OpNot => 9,
        OpKind::OpAdd => 10,
        OpKind::OpSub => 11,
        OpKind::OpNeg => 12,
        OpKind::OpMul => 13,
        OpKind::OpDiv => 14,
        OpKind::OpRem => 15,
        OpKind::OpAbs => 16,
        OpKind::OpIn => 17,
        OpKind::OpStartsWith => 18,
        OpKind::OpEndsWith => 19,
        OpKind::OpSplit => 20,
        OpKind::OpJoin => 21,
        OpKind::OpLower => 22,
        OpKind::OpUpper => 23,
        OpKind::OpMatch => 24,
        OpKind::OpRegex => 25,
        OpKind::OpNum => 26,
        OpKind::OpString => 27,
    }
}

/// What the catalog binds a name to, if anything.  Every alias of a function
/// is its own entry; the spelling with a raw-identifier prefix is registered
/// too, matching how the catalog was assembled from function names.
pub open spec fn op_lookup(s: Seq<char>) -> Option<OpKind> {
    if s == "var"@ {
        Some(OpKind::Var)
    } else if s == "="@ || s == "eq"@ {
        Some(OpKind::OpEq)
    } else if s == "<"@ || s == "lt"@ {
        Some(OpKind::OpLt)
    } else if s == "<="@ || s == "le"@ {
        Some(OpKind::OpLe)
    } else if s == "!="@ || s == "ne"@ {
        Some(OpKind::OpNe)
    } else if s == ">="@ || s == "ge"@ {
        Some(OpKind::OpGe)
    } else if s == ">"@ || s == "gt"@ {
        Some(OpKind::OpGt)
    } else if s == "&"@ || s == "&&"@ || s == "all"@ || s == "and"@ {
        Some(OpKind::OpAnd)
    } else if s == "|"@ || s == "||"@ || s == "any"@ || s == "or"@ {
        Some(OpKind::OpOr)
    } else if s == "!"@ || s == "not"@ {
        Some(OpKind::OpNot)
    } else if s == "+"@ || s == "sum"@ || s == "add"@ {
        Some(OpKind::OpAdd)
    } else if s == "-"@ || s == "minus"@ || s == "sub"@ {
        Some(OpKind::OpSub)
    } else if s == "neg"@ {
        Some(OpKind::OpNeg)
    } else if s == "*"@ || s == "mul"@ {
        Some(OpKind::OpMul)
    } else if s == "/"@ || s == "div"@ {
        Some(OpKind::OpDiv)
    } else if s == "%"@ || s == "mod"@ || s == "rem"@ {
        Some(OpKind::OpRem)
    } else if s == "abs"@ {
        Some(OpKind::OpAbs)
    } else if s == "in"@ || s == "r#in"@ {
        Some(OpKind::OpIn)
    } else if s == "startswith"@ {
        Some(OpKind::OpStartsWith)
    } else if s == "endswith"@ {
        Some(OpKind::OpEndsWith)
    } else if s == "split"@ {
        Some(OpKind::OpSplit)
    } else if s == "join"@ {
        Some(OpKind::OpJoin)
    } else if s == "lower"@ {
        Some(OpKind::OpLower)
    } else if s == "upper"@ {
        Some(OpKind::OpUpper)
    } else if s == "match"@ || s == "r#match"@ {
        Some(OpKind::OpMatch)
    } else if s == "regex"@ {
        Some(OpKind::OpRegex)
    } else if s == "num"@ {
        Some(OpKind::OpNum)
    } else if s == "string"@ {
        Some(OpKind::OpString)
    } else {
        None
    }
}

/// An operator: a registered name bound to a builtin function.
#[derive(Clone, Debug)]
pub struct Op {
    /// The name under which the operator was looked up.
    pub name: String,
    /// The builtin function the name is bound to.
    pub kind: OpKind,
}

impl Op {
    /// Constructs an operator.
    pub fn new(name: &str, kind: OpKind) -> (r: Op)
        ensures
            r.name@ == name@,
            r.kind == kind,
    {
        Op { name: name.to_owned(), kind }
    }

    /// Looks a name up in the catalog; `None` if it is not registered.
    pub fn get(name: &str) -> (r: Option<Op>)
        ensures
            r is Some <==> op_lookup(name@) is Some,
            r matches Some(op) ==> op_lookup(name@) == Some(op.kind) && op.name@ == name@,
    {
        match Op::lookup_kind(name) {
            Some(k) => Some(Op::new(name, k)),
            None => None,
        }
    }

    /// Looks a name up in the catalog, yielding only the kind.
    pub fn lookup_kind(name: &str) -> (r: Option<OpKind>)
        ensures
            r == op_lookup(name@),
    {
        if str_eq_str(name, "var") {
            Some(OpKind::Var)
        } else if str_eq_str(name, "=") || str_eq_str(name, "eq") {
            Some(OpKind::OpEq)
        } else if str_eq_str(name, "<") || str_eq_str(name, "lt") {
            Some(OpKind::OpLt)
        } else if str_eq_str(name, "<=") || str_eq_str(name, "le") {
            Some(OpKind::OpLe)
        } else if str_eq_str(name, "!=") || str_eq_str(name, "ne") {
            Some(OpKind::OpNe)
        } else if str_eq_str(name, ">=") || str_eq_str(name, "ge") {
            Some(OpKind::OpGe)
        } else if str_eq_str(name, ">") || str_eq_str(name, "gt") {
            Some(OpKind::OpGt)
        } else if str_eq_str(name, "&") || str_eq_str(name, "&&") || str_eq_str(name, "all")
            || str_eq_str(name, "and") {
            Some(OpKind::OpAnd)
        } else if str_eq_str(name, "|") || str_eq_str(name, "||") || str_eq_str(name, "any")
            || str_eq_str(name, "or") {
            Some(OpKind::OpOr)
        } else if str_eq_str(name, "!") || str_eq_str(name, "not") {
            Some(OpKind::OpNot)
        } else if str_eq_str(name, "+") || str_eq_str(name, "sum") || str_eq_str(name, "add") {
            Some(OpKind::OpAdd)
        } else if str_eq_str(name, "-") || str_eq_str(name, "minus") || str_eq_str(name, "sub") {
            Some(OpKind::OpSub)
        } else if str_eq_str(name, "neg") {
            Some(OpKind::OpNeg)
        } else if str_eq_str(name, "*") || str_eq_str(name, "mul") {
            Some(OpKind::OpMul)
        } else if str_eq_str(name, "/") || str_eq_str(name, "div") {
            Some(OpKind::OpDiv)
        } else if str_eq_str(name, "%") || str_eq_str(name, "mod") || str_eq_str(name, "rem") {
            Some(OpKind::OpRem)
        } else if str_eq_str(name, "abs") {
            Some(OpKind::OpAbs)
        } else if str_eq_str(name, "in") || str_eq_str(name, "r#in") {
            Some(OpKind::OpIn)
        } else if str_eq_str(name, "startswith") {
            Some(OpKind::OpStartsWith)
        } else if str_eq_str(name, "endswith") {
            Some(OpKind::OpEndsWith)
        } else if str_eq_str(name, "split") {
            Some(OpKind::OpSplit)
        } else if str_eq_str(name, "join") {
            Some(OpKind::OpJoin)
        } else if str_eq_str(name, "lower") {
            Some(OpKind::OpLower)
        } else if str_eq_str(name, "upper") {
            Some(OpKind::OpUpper)
        } else if str_eq_str(name, "match") || str_eq_str(name, "r#match") {
            Some(OpKind::OpMatch)
        } else if str_eq_str(name, "regex") {
            Some(OpKind::OpRegex)
        } else if str_eq_str(name, "num") {
            Some(OpKind::OpNum)
        } else if str_eq_str(name, "string") {
            Some(OpKind::OpString)
        } else {
            None
        }
    }
}

/// Whether two kinds are the same builtin function.
pub fn kind_eq(a: OpKind, b: OpKind) -> (r: bool)
    ensures
        r == (a == b),
{
    a == b
}


// ---------------------------------------------------------------------------
// what each builtin computes, as a function of the argument views

/// The first argument, or null when there is none: operators never index
/// out of range, an absent argument counts as null.
pub open spec fn arg0_v(s: Seq<ArgV>) -> ArgV {
    if s.len() > 0 {
        s[0]
    } else {
        ArgV::Null
    }
}

/// The second argument, or null when there is none.
pub open spec fn arg1_v(s: Seq<ArgV>) -> ArgV {
    if s.len() > 1 {
        s[1]
    } else {
        ArgV::Null
    }
}

/// Chained equality: every adjacent pair is equal.
pub open spec fn chain_eq(s: Seq<ArgV>) -> bool {
    forall|i: int| 0 <= i < s.len() - 1 ==> eq_v(#[trigger] s[i], s[i + 1])
}

/// Chained inequality: every adjacent pair differs.
pub open spec fn chain_ne(s: Seq<ArgV>) -> bool {
    forall|i: int| 0 <= i < s.len() - 1 ==> !eq_v(#[trigger] s[i], s[i + 1])
}

/// Chained strictly-less: every adjacent pair is ordered upward.
pub open spec fn chain_lt(s: Seq<ArgV>) -> bool {
    forall|i: int| 0 <= i < s.len() - 1 ==> lt_v(#[trigger] s[i], s[i + 1])
}

/// Chained less-or-equal.
pub open spec fn chain_le(s: Seq<ArgV>) -> bool {
    forall|i: int| 0 <= i < s.len() - 1 ==> le_v(#[trigger] s[i], s[i + 1])
}

/// Chained greater-or-equal.
pub open spec fn chain_ge(s: Seq<ArgV>) -> bool {
    forall|i: int| 0 <= i < s.len() - 1 ==> ge_v(#[trigger] s[i], s[i + 1])
}

/// Chained strictly-greater.
pub open spec fn chain_gt(s: Seq<ArgV>) -> bool {
    forall|i: int| 0 <= i < s.len() - 1 ==> gt_v(#[trigger] s[i], s[i + 1])
}

/// Whether every argument coerces to true.
pub open spec fn all_true(s: Seq<ArgV>) -> bool {
    forall|i: int| 0 <= i < s.len() ==> to_bool_v(#[trigger] s[i])
}

/// Whether some argument coerces to true.
pub open spec fn any_true(s: Seq<ArgV>) -> bool {
    exists|i: int| 0 <= i < s.len() && to_bool_v(#[trigger] s[i])
}

/// One addition step: dispatch on the accumulator's variant, coerce the
/// right operand accordingly; integer overflow wraps; a string accumulator
/// concatenates.
pub open spec fn add_step_v(a: ArgV, b: ArgV) -> ArgV {
    match a {
        ArgV::Null => ArgV::Int(to_i64_v(b)),
        ArgV::Bool(x) => ArgV::Int(
            (if x {
                1i64
            } else {
                0i64
            }).wrapping_add(to_i64_v(b)),
        ),
        ArgV::Int(x) => ArgV::Int(x.wrapping_add(to_i64_v(b))),
        ArgV::Float(n) => ArgV::Float(jnum_add(n, to_jnum_v(b))),
        ArgV::String(t) => ArgV::String(t + to_text_v(b)),
        ArgV::Array(_) => ArgV::Null,
        ArgV::Expr(_) => ArgV::Null,
    }
}

/// One subtraction step; a string accumulator is coerced to an integer.
pub open spec fn sub_step_v(a: ArgV, b: ArgV) -> ArgV {
    match a {
        ArgV::Null => ArgV::Int((0i64).wrapping_sub(to_i64_v(b))),
        ArgV::Bool(x) => ArgV::Int(
            (if x {
                1i64
            } else {
                0i64
            }).wrapping_sub(to_i64_v(b)),
        ),
        ArgV::Int(x) => ArgV::Int(x.wrapping_sub(to_i64_v(b))),
        ArgV::Float(n) => ArgV::Float(jnum_sub(n, to_jnum_v(b))),
        ArgV::String(_) => ArgV::Int(to_i64_v(a).wrapping_sub(to_i64_v(b))),
        ArgV::Array(_) => ArgV::Null,
        ArgV::Expr(_) => ArgV::Null,
    }
}

/// One multiplication step; a null accumulator stays zero.
pub open spec fn mul_step_v(a: ArgV, b: ArgV) -> ArgV {
    match a {
        ArgV::Null => ArgV::Int(0),
        ArgV::Bool(x) => ArgV::Int(
            (if x {
                1i64
            } else {
                0i64
            }).wrapping_mul(to_i64_v(b)),
        ),
        ArgV::Int(x) => ArgV::Int(x.wrapping_mul(to_i64_v(b))),
        ArgV::Float(n) => ArgV::Float(jnum_mul(n, to_jnum_v(b))),
        ArgV::String(_) => ArgV::Int(to_i64_v(a).wrapping_mul(to_i64_v(b))),
        ArgV::Array(_) => ArgV::Null,
        ArgV::Expr(_) => ArgV::Null,
    }
}

/// Truncating integer division, wrapping on the one overflowing pair.
pub open spec fn div_wrap(x: i64, d: i64) -> i64 {
    match x.checked_div(d) {
        Some(q) => q,
        None => i64::MIN,
    }
}

/// Truncating integer remainder, zero on the one overflowing pair.
pub open spec fn rem_wrap(x: i64, d: i64) -> i64 {
    match x.checked_rem(d) {
        Some(q) => q,
        None => 0,
    }
}

/// One division step: a zero-valued divisor is a typed error, never a
/// crash; a null accumulator stays zero without reading the divisor.
pub open spec fn div_step_v(a: ArgV, b: ArgV) -> Result<ArgV, Error> {
    match a {
        ArgV::Null => Ok(ArgV::Int(0)),
        ArgV::Bool(x) => if to_i64_v(b) == 0 {
            Err(Error::DivisionByZeroError)
        } else {
            Ok(
                ArgV::Int(
                    div_wrap(
                        if x {
                            1i64
                        } else {
                            0i64
                        },
                        to_i64_v(b),
                    ),
                ),
            )
        },
        ArgV::Int(x) => if to_i64_v(b) == 0 {
            Err(Error::DivisionByZeroError)
        } else {
            Ok(ArgV::Int(div_wrap(x, to_i64_v(b))))
        },
        ArgV::Float(n) => if jnum_is_zero(to_jnum_v(b)) {
            Err(Error::DivisionByZeroError)
        } else {
            Ok(ArgV::Float(jnum_div(n, to_jnum_v(b))))
        },
        ArgV::String(_) => if to_i64_v(b) == 0 {
            Err(Error::DivisionByZeroError)
        } else {
            Ok(ArgV::Int(div_wrap(to_i64_v(a), to_i64_v(b))))
        },
        ArgV::Array(_) => Ok(ArgV::Null),
        ArgV::Expr(_) => Ok(ArgV::Null),
    }
}

/// One remainder step; errors exactly as division does.
pub open spec fn rem_step_v(a: ArgV, b: ArgV) -> Result<ArgV, Error> {
    match a {
        ArgV::Null => Ok(ArgV::Int(0)),
        ArgV::Bool(x) => if to_i64_v(b) == 0 {
            Err(Error::DivisionByZeroError)
        } else {
            Ok(
                ArgV::Int(
                    rem_wrap(
                        if x {
                            1i64
                        } else {
                            0i64
                        },
                        to_i64_v(b),
                    ),
                ),
            )
        },
        ArgV::Int(x) => if to_i64_v(b) == 0 {
            Err(Error::DivisionByZeroError)
        } else {
            Ok(ArgV::Int(rem_wrap(x, to_i64_v(b))))
        },
        ArgV::Float(n) => if jnum_is_zero(to_jnum_v(b)) {
            Err(Error::DivisionByZeroError)
        } else {
            Ok(ArgV::Float(jnum_rem(n, to_jnum_v(b))))
        },
        ArgV::String(_) => if to_i64_v(b) == 0 {
            Err(Error::DivisionByZeroError)
        } else {
            Ok(ArgV::Int(rem_wrap(to_i64_v(a), to_i64_v(b))))
        },
        ArgV::Array(_) => Ok(ArgV::Null),
        ArgV::Expr(_) => Ok(ArgV::Null),
    }
}

/// Left fold of addition steps.
pub open spec fn add_fold_v(acc: ArgV, rest: Seq<ArgV>) -> ArgV
    decreases rest.len(),
{
    if rest.len() == 0 {
        acc
    } else {
        add_fold_v(add_step_v(acc, rest[0]), rest.drop_first())
    }
}

/// Left fold of subtraction steps.
pub open spec fn sub_fold_v(acc: ArgV, rest: Seq<ArgV>) -> ArgV
    decreases rest.len(),
{
    if rest.len() == 0 {
        acc
    } else {
        sub_fold_v(sub_step_v(acc, rest[0]), rest.drop_first())
    }
}

/// Left fold of multiplication steps.
pub open spec fn mul_fold_v(acc: ArgV, rest: Seq<ArgV>) -> ArgV
    decreases rest.len(),
{
    if rest.len() == 0 {
        acc
    } else {
        mul_fold_v(mul_step_v(acc, rest[0]), rest.drop_first())
    }
}

/// Left fold of division steps; the first error stops the fold.
pub open spec fn div_fold_v(acc: ArgV, rest: Seq<ArgV>) -> Result<ArgV, Error>
    decreases rest.len(),
{
    if rest.len() == 0 {
        Ok(acc)
    } else {
        match div_step_v(acc, rest[0]) {
            Ok(x) => div_fold_v(x, rest.drop_first()),
            Err(e) => Err(e),
        }
    }
}

/// Left fold of remainder steps; the first error stops the fold.
pub open spec fn rem_fold_v(acc: ArgV, rest: Seq<ArgV>) -> Result<ArgV, Error>
    decreases rest.len(),
{
    if rest.len() == 0 {
        Ok(acc)
    } else {
        match rem_step_v(acc, rest[0]) {
            Ok(x) => rem_fold_v(x, rest.drop_first()),
            Err(e) => Err(e),
        }
    }
}

/// What `+` yields: a left fold from the first argument, null when there
/// are none.
pub open spec fn op_add_v(s: Seq<ArgV>) -> ArgV {
    if s.len() == 0 {
        ArgV::Null
    } else {
        add_fold_v(s[0], s.drop_first())
    }
}

/// What `-` yields.
pub open spec fn op_sub_v(s: Seq<ArgV>) -> ArgV {
    if s.len() == 0 {
        ArgV::Null
    } else {
        sub_fold_v(s[0], s.drop_first())
    }
}

/// What `*` yields.
pub open spec fn op_mul_v(s: Seq<ArgV>) -> ArgV {
    if s.len() == 0 {
        ArgV::Null
    } else {
        mul_fold_v(s[0], s.drop_first())
    }
}

/// What `/` yields, or the division-by-zero error.
pub open spec fn op_div_v(s: Seq<ArgV>) -> Result<ArgV, Error> {
    if s.len() == 0 {
        Ok(ArgV::Null)
    } else {
        div_fold_v(s[0], s.drop_first())
    }
}

/// What `%` yields, or the division-by-zero error.
pub open spec fn op_rem_v(s: Seq<ArgV>) -> Result<ArgV, Error> {
    if s.len() == 0 {
        Ok(ArgV::Null)
    } else {
        rem_fold_v(s[0], s.drop_first())
    }
}

/// What `neg` yields: always an integer, the wrapped negation of the first
/// argument's integer coercion.
pub open spec fn op_neg_v(s: Seq<ArgV>) -> ArgV {
    ArgV::Int((0i64).wrapping_sub(to_i64_v(arg0_v(s))))
}

/// What `abs` yields: always an integer, truncating a float first.
pub open spec fn op_abs_v(s: Seq<ArgV>) -> ArgV {
    let x = to_i64_v(arg0_v(s));
    ArgV::Int(
        if x < 0 {
            (0i64).wrapping_sub(x)
        } else {
            x
        },
    )
}

/// What `in` yields: whether the first argument equals any of the rest.
pub open spec fn op_in_v(s: Seq<ArgV>) -> ArgV {
    ArgV::Bool(exists|i: int| 1 <= i < s.len() && eq_v(#[trigger] s[i], s[0]))
}

/// What `startswith` yields: a prefix test on a string subject against the
/// second argument's text, on an array subject against the remaining
/// arguments; false on anything else.
pub open spec fn op_startswith_v(s: Seq<ArgV>) -> ArgV {
    match arg0_v(s) {
        ArgV::String(t) => ArgV::Bool(to_text_v(arg1_v(s)).is_prefix_of(t)),
        ArgV::Array(x) => {
            let rest = s.drop_first();
            ArgV::Bool(rest.len() <= x.len() && (forall|i: int|
                0 <= i < rest.len() ==> eq_v(#[trigger] x[i], rest[i])))
        },
        _ => ArgV::Bool(false),
    }
}

/// What `endswith` yields: the mirror of `startswith`.
pub open spec fn op_endswith_v(s: Seq<ArgV>) -> ArgV {
    match arg0_v(s) {
        ArgV::String(t) => ArgV::Bool(to_text_v(arg1_v(s)).is_suffix_of(t)),
        ArgV::Array(x) => {
            let rest = s.drop_first();
            ArgV::Bool(rest.len() <= x.len() && (forall|i: int|
                0 <= i < rest.len() ==> eq_v(#[trigger] x[x.len() - rest.len() + i], rest[i])))
        },
        _ => ArgV::Bool(false),
    }
}

/// What `split` yields: the parts of the first argument's text on the
/// second argument's text, as an array of strings.
pub open spec fn op_split_v(s: Seq<ArgV>) -> ArgV {
    ArgV::Array(
        split_of(to_text_v(arg0_v(s)), to_text_v(arg1_v(s))).map_values(|t| ArgV::String(t)),
    )
}

/// What `join` yields: the remaining arguments' texts, interleaved with the
/// first argument's text.
pub open spec fn op_join_v(s: Seq<ArgV>) -> ArgV {
    if s.len() == 0 {
        ArgV::String(Seq::empty())
    } else {
        ArgV::String(join_of(s.drop_first().map_values(|a| to_text_v(a)), to_text_v(s[0])))
    }
}

/// What `lower` yields.
pub open spec fn op_lower_v(s: Seq<ArgV>) -> ArgV {
    ArgV::String(lower_of(to_text_v(arg0_v(s))))
}

/// What `upper` yields.
pub open spec fn op_upper_v(s: Seq<ArgV>) -> ArgV {
    ArgV::String(upper_of(to_text_v(arg0_v(s))))
}

/// Whether a shell-glob pattern matches a text; an invalid pattern matches
/// nothing.  Depends on the pattern and the text alone.
pub uninterp spec fn glob_matches(pattern: Seq<char>, text: Seq<char>) -> bool;

/// Whether a regular expression matches somewhere in a text; an invalid
/// expression matches nothing.  Depends on the pattern and the text alone.
pub uninterp spec fn regex_matches(pattern: Seq<char>, text: Seq<char>) -> bool;

/// What `match` yields: the second argument's text as a shell glob against
/// the first argument's text.
pub open spec fn op_match_v(s: Seq<ArgV>) -> ArgV {
    ArgV::Bool(glob_matches(to_text_v(arg1_v(s)), to_text_v(arg0_v(s))))
}

/// What `regex` yields: the second argument's text as a regular expression
/// against the first argument's text.
pub open spec fn op_regex_v(s: Seq<ArgV>) -> ArgV {
    ArgV::Bool(regex_matches(to_text_v(arg1_v(s)), to_text_v(arg0_v(s))))
}

/// What `num` yields: numbers pass through, a string is parsed as an
/// integer, then as a float, then falls back to integer zero; anything else
/// coerces to an integer.
pub open spec fn op_num_v(s: Seq<ArgV>) -> ArgV {
    match arg0_v(s) {
        ArgV::Int(i) => ArgV::Int(i),
        ArgV::Float(n) => ArgV::Float(n),
        ArgV::String(t) => match parse_i64(t) {
            Some(i) => ArgV::Int(i),
            None => match jnum_parse(t) {
                Some(n) => ArgV::Float(n),
                None => ArgV::Int(0),
            },
        },
        other => ArgV::Int(to_i64_v(other)),
    }
}

/// What `string` yields: the first argument's text.
pub open spec fn op_string_v(s: Seq<ArgV>) -> ArgV {
    ArgV::String(to_text_v(arg0_v(s)))
}

/// What the `var` placeholder yields: its first argument.  Evaluation
/// intercepts `var` before dispatch, so this is never reached from a rule.
pub open spec fn op_var_v(s: Seq<ArgV>) -> ArgV {
    arg0_v(s)
}

/// What dispatching a kind on an argument list yields: only division and
/// remainder can fail.
pub open spec fn apply_op_v(kind: OpKind, s: Seq<ArgV>) -> Result<ArgV, Error> {
    match kind {
        OpKind::Var => Ok(op_var_v(s)),
        OpKind::OpEq => Ok(ArgV::Bool(chain_eq(s))),
        OpKind::OpLt => Ok(ArgV::Bool(chain_lt(s))),
        OpKind::OpLe => Ok(ArgV::Bool(chain_le(s))),
        OpKind::OpNe => Ok(ArgV::Bool(chain_ne(s))),
        OpKind::OpGe => Ok(ArgV::Bool(chain_ge(s))),
        OpKind::OpGt => Ok(ArgV::Bool(chain_gt(s))),
        OpKind::OpAnd => Ok(ArgV::Bool(all_true(s))),
        OpKind::OpOr => Ok(ArgV::Bool(any_true(s))),
        OpKind::OpNot => Ok(ArgV::Bool(!to_bool_v(arg0_v(s)))),
        OpKind::OpAdd => Ok(op_add_v(s)),
        OpKind::OpSub => Ok(op_sub_v(s)),
        OpKind::OpNeg => Ok(op_neg_v(s)),
        OpKind::OpMul => Ok(op_mul_v(s)),
        OpKind::OpDiv => op_div_v(s),
        OpKind::OpRem => op_rem_v(s),
        OpKind::OpAbs => Ok(op_abs_v(s)),
        OpKind::OpIn => Ok(op_in_v(s)),
        OpKind::OpStartsWith => Ok(op_startswith_v(s)),
        OpKind::OpEndsWith => Ok(op_endswith_v(s)),
        OpKind::OpSplit => Ok(op_split_v(s)),
        OpKind::OpJoin => Ok(op_join_v(s)),
        OpKind::OpLower => Ok(op_lower_v(s)),
        OpKind::OpUpper => Ok(op_upper_v(s)),
        OpKind::OpMatch => Ok(op_match_v(s)),
        OpKind::OpRegex => Ok(op_regex_v(s)),
        OpKind::OpNum => Ok(op_num_v(s)),
        OpKind::OpString => Ok(op_string_v(s)),
    }
}


// ---------------------------------------------------------------------------
// trusted: pattern matching through outside crates

/// Relies on glob::Pattern::new and glob::Pattern::matches: whether the
/// shell-glob pattern matches the whole text; a pattern that does not
/// compile matches nothing.
#[verifier::external_body]
fn glob_match_strs(pattern: &str, text: &str) -> (r: bool)
    ensures
        r == glob_matches(pattern@, text@),
{
    match glob::Pattern::new(pattern) {
        Ok(p) => p.matches(text),
        Err(_) => false,
    }
}

/// Relies on regex::Regex::new and regex::Regex::is_match: whether the
/// regular expression matches somewhere in the text; an expression that
/// does not compile matches nothing.
#[verifier::external_body]
fn regex_match_strs(pattern: &str, text: &str) -> (r: bool)
    ensures
        r == regex_matches(pattern@, text@),
{
    match regex::Regex::new(pattern) {
        Ok(re) => re.is_match(text),
        Err(_) => false,
    }
}

// ---------------------------------------------------------------------------
// the builtin functions

/// The first argument, or null when there is none.
fn take_arg0(args: &Vec<Arg>) -> (r: Arg)
    ensures
        r@ == arg0_v(args_view(args@)),
{
    if args.len() > 0 {
        args[0].duplicate()
    } else {
        Arg::Null
    }
}

/// The second argument, or null when there is none.
fn take_arg1(args: &Vec<Arg>) -> (r: Arg)
    ensures
        r@ == arg1_v(args_view(args@)),
{
    if args.len() > 1 {
        args[1].duplicate()
    } else {
        Arg::Null
    }
}

/// The `var` placeholder: yields its first argument.  Evaluation intercepts
/// `var` before dispatch, so a rule never reaches this function.
pub fn var(args: Vec<Arg>) -> (r: Arg)
    ensures
        r@ == op_var_v(args_view(args@)),
{
    take_arg0(&args)
}

/// Chained equality of every adjacent pair of arguments.
#[verifier::loop_isolation(false)]
pub fn eq(args: Vec<Arg>) -> (r: Arg)
    ensures
        r@ == ArgV::Bool(chain_eq(args_view(args@))),
{
    let n = args.len();
    if n < 2 {
        return Arg::Bool(true);
    }
    let mut i: usize = 0;
    while i < n - 1
        invariant
            0 <= i <= n - 1,
            forall|k: int| 0 <= k < i ==> eq_v(
                #[trigger] args_view(args@)[k],
                args_view(args@)[k + 1],
            ),
        decreases n - i,
    {
        if !arg_eq(&args[i], &args[i + 1]) {
            assert(!eq_v(args_view(args@)[i as int], args_view(args@)[i as int + 1]));
            return Arg::Bool(false);
        }
        i = i + 1;
    }
    Arg::Bool(true)
}

/// Chained strictly-less over every adjacent pair of arguments.
#[verifier::loop_isolation(false)]
pub fn lt(args: Vec<Arg>) -> (r: Arg)
    ensures
        r@ == ArgV::Bool(chain_lt(args_view(args@))),
{
    let n = args.len();
    if n < 2 {
        return Arg::Bool(true);
    }
    let mut i: usize = 0;
    while i < n - 1
        invariant
            0 <= i <= n - 1,
            forall|k: int| 0 <= k < i ==> lt_v(
                #[trigger] args_view(args@)[k],
                args_view(args@)[k + 1],
            ),
        decreases n - i,
    {
        let c = arg_cmp(&args[i], &args[i + 1]);
        let ok = match c {
            Some(Ordering::Less) => true,
            _ => false,
        };
        if !ok {
            assert(!lt_v(args_view(args@)[i as int], args_view(args@)[i as int + 1]));
            return Arg::Bool(false);
        }
        i = i + 1;
    }
    Arg::Bool(true)
}

/// Chained less-or-equal over every adjacent pair of arguments.
#[verifier::loop_isolation(false)]
pub fn le(args: Vec<Arg>) -> (r: Arg)
    ensures
        r@ == ArgV::Bool(chain_le(args_view(args@))),
{
    let n = args.len();
    if n < 2 {
        return Arg::Bool(true);
    }
    let mut i: usize = 0;
    while i < n - 1
        invariant
            0 <= i <= n - 1,
            forall|k: int| 0 <= k < i ==> le_v(
                #[trigger] args_view(args@)[k],
                args_view(args@)[k + 1],
            ),
        decreases n - i,
    {
        let c = arg_cmp(&args[i], &args[i + 1]);
        let ok = match c {
            Some(Ordering::Less) => true,
            Some(Ordering::Equal) => true,
            _ => false,
        };
        if !ok {
            assert(!le_v(args_view(args@)[i as int], args_view(args@)[i as int + 1]));
            return Arg::Bool(false);
        }
        i = i + 1;
    }
    Arg::Bool(true)
}

/// Chained inequality of every adjacent pair of arguments.
#[verifier::loop_isolation(false)]
pub fn ne(args: Vec<Arg>) -> (r: Arg)
    ensures
        r@ == ArgV::Bool(chain_ne(args_view(args@))),
{
    let n = args.len();
    if n < 2 {
        return Arg::Bool(true);
    }
    let mut i: usize = 0;
    while i < n - 1
        invariant
            0 <= i <= n - 1,
            forall|k: int| 0 <= k < i ==> !eq_v(
                #[trigger] args_view(args@)[k],
                args_view(args@)[k + 1],
            ),
        decreases n - i,
    {
        if arg_eq(&args[i], &args[i + 1]) {
            assert(eq_v(args_view(args@)[i as int], args_view(args@)[i as int + 1]));
            return Arg::Bool(false);
        }
        i = i + 1;
    }
    Arg::Bool(true)
}

/// Chained greater-or-equal over every adjacent pair of arguments.
#[verifier::loop_isolation(false)]
pub fn ge(args: Vec<Arg>) -> (r: Arg)
    ensures
        r@ == ArgV::Bool(chain_ge(args_view(args@))),
{
    let n = args.len();
    if n < 2 {
        return Arg::Bool(true);
    }
    let mut i: usize = 0;
    while i < n - 1
        invariant
            0 <= i <= n - 1,
            forall|k: int| 0 <= k < i ==> ge_v(
                #[trigger] args_view(args@)[k],
                args_view(args@)[k + 1],
            ),
        decreases n - i,
    {
        let c = arg_cmp(&args[i], &args[i + 1]);
        let ok = match c {
            Some(Ordering::Greater) => true,
            Some(Ordering::Equal) => true,
            _ => false,
        };
        if !ok {
            assert(!ge_v(args_view(args@)[i as int], args_view(args@)[i as int + 1]));
            return Arg::Bool(false);
        }
        i = i + 1;
    }
    Arg::Bool(true)
}

/// Chained strictly-greater over every adjacent pair of arguments.
#[verifier::loop_isolation(false)]
pub fn gt(args: Vec<Arg>) -> (r: Arg)
    ensures
        r@ == ArgV::Bool(chain_gt(args_view(args@))),
{
    let n = args.len();
    if n < 2 {
        return Arg::Bool(true);
    }
    let mut i: usize = 0;
    while i < n - 1
        invariant
            0 <= i <= n - 1,
            forall|k: int| 0 <= k < i ==> gt_v(
                #[trigger] args_view(args@)[k],
                args_view(args@)[k + 1],
            ),
        decreases n - i,
    {
        let c = arg_cmp(&args[i], &args[i + 1]);
        let ok = match c {
            Some(Ordering::Greater) => true,
            _ => false,
        };
        if !ok {
            assert(!gt_v(args_view(args@)[i as int], args_view(args@)[i as int + 1]));
            return Arg::Bool(false);
        }
        i = i + 1;
    }
    Arg::Bool(true)
}

/// Conjunction: every argument coerces to true.
#[verifier::loop_isolation(false)]
pub fn and(args: Vec<Arg>) -> (r: Arg)
    ensures
        r@ == ArgV::Bool(all_true(args_view(args@))),
{
    let n = args.len();
    let mut i: usize = 0;
    while i < n
        invariant
            0 <= i <= n,
            forall|k: int| 0 <= k < i ==> to_bool_v(#[trigger] args_view(args@)[k]),
        decreases n - i,
    {
        if !args[i].coerce_bool() {
            assert(!to_bool_v(args_view(args@)[i as int]));
            return Arg::Bool(false);
        }
        i = i + 1;
    }
    Arg::Bool(true)
}

/// Disjunction: some argument coerces to true.
#[verifier::loop_isolation(false)]
pub fn or(args: Vec<Arg>) -> (r: Arg)
    ensures
        r@ == ArgV::Bool(any_true(args_view(args@))),
{
    let n = args.len();
    let mut i: usize = 0;
    while i < n
        invariant
            0 <= i <= n,
            forall|k: int| 0 <= k < i ==> !to_bool_v(#[trigger] args_view(args@)[k]),
        decreases n - i,
    {
        if args[i].coerce_bool() {
            assert(to_bool_v(args_view(args@)[i as int]));
            return Arg::Bool(true);
        }
        i = i + 1;
    }
    Arg::Bool(false)
}

/// Negation of the first argument's boolean coercion; null when absent.
pub fn not(args: Vec<Arg>) -> (r: Arg)
    ensures
        r@ == ArgV::Bool(!to_bool_v(arg0_v(args_view(args@)))),
{
    let a0 = take_arg0(&args);
    Arg::Bool(!a0.coerce_bool())
}

/// One addition step of the fold.
fn add_step(acc: Arg, b: &Arg) -> (r: Arg)
    ensures
        r@ == add_step_v(acc@, b@),
{
    match acc {
        Arg::Null => Arg::Int(b.coerce_i64()),
        Arg::Bool(x) => Arg::Int(
            (if x {
                1i64
            } else {
                0i64
            }).wrapping_add(b.coerce_i64()),
        ),
        Arg::Int(x) => Arg::Int(x.wrapping_add(b.coerce_i64())),
        Arg::Float(n) => {
            let bn = b.coerce_jnum();
            Arg::Float(num_add(&n, &bn))
        },
        Arg::String(t) => {
            let u = b.coerce_string();
            Arg::String(t.concat(u.as_str()))
        },
        Arg::Array(_) => Arg::Null,
        Arg::Expr(_) => Arg::Null,
    }
}

/// One subtraction step of the fold.
fn sub_step(acc: Arg, b: &Arg) -> (r: Arg)
    ensures
        r@ == sub_step_v(acc@, b@),
{
    match acc {
        Arg::Null => Arg::Int((0i64).wrapping_sub(b.coerce_i64())),
        Arg::Bool(x) => Arg::Int(
            (if x {
                1i64
            } else {
                0i64
            }).wrapping_sub(b.coerce_i64()),
        ),
        Arg::Int(x) => Arg::Int(x.wrapping_sub(b.coerce_i64())),
        Arg::Float(n) => {
            let bn = b.coerce_jnum();
            Arg::Float(num_sub(&n, &bn))
        },
        Arg::String(_) => {
            let x = acc.coerce_i64();
            Arg::Int(x.wrapping_sub(b.coerce_i64()))
        },
        Arg::Array(_) => Arg::Null,
        Arg::Expr(_) => Arg::Null,
    }
}

/// One multiplication step of the fold.
fn mul_step(acc: Arg, b: &Arg) -> (r: Arg)
    ensures
        r@ == mul_step_v(acc@, b@),
{
    match acc {
        Arg::Null => Arg::Int(0),
        Arg::Bool(x) => Arg::Int(
            (if x {
                1i64
            } else {
                0i64
            }).wrapping_mul(b.coerce_i64()),
        ),
        Arg::Int(x) => Arg::Int(x.wrapping_mul(b.coerce_i64())),
        Arg::Float(n) => {
            let bn = b.coerce_jnum();
            Arg::Float(num_mul(&n, &bn))
        },
        Arg::String(_) => {
            let x = acc.coerce_i64();
            Arg::Int(x.wrapping_mul(b.coerce_i64()))
        },
        Arg::Array(_) => Arg::Null,
        Arg::Expr(_) => Arg::Null,
    }
}

/// One division step of the fold; a zero-valued divisor is a typed error.
fn div_step(acc: Arg, b: &Arg) -> (r: Result<Arg, Error>)
    ensures
        r matches Ok(a) ==> div_step_v(acc@, b@) == Ok::<ArgV, Error>(a@),
        r matches Err(e) ==> div_step_v(acc@, b@) == Err::<ArgV, Error>(e),
{
    match acc {
        Arg::Null => Ok(Arg::Int(0)),
        Arg::Bool(x) => {
            let d = b.coerce_i64();
            if d == 0 {
                Err(Error::DivisionByZeroError)
            } else {
                let y: i64 = if x {
                    1
                } else {
                    0
                };
                match y.checked_div(d) {
                    Some(q) => Ok(Arg::Int(q)),
                    None => Ok(Arg::Int(i64::MIN)),
                }
            }
        },
        Arg::Int(x) => {
            let d = b.coerce_i64();
            if d == 0 {
                Err(Error::DivisionByZeroError)
            } else {
                match x.checked_div(d) {
                    Some(q) => Ok(Arg::Int(q)),
                    None => Ok(Arg::Int(i64::MIN)),
                }
            }
        },
        Arg::Float(n) => {
            let d = b.coerce_jnum();
            let z = num_from_i64(0);
            match num_cmp(&d, &z) {
                Ordering::Equal => Err(Error::DivisionByZeroError),
                _ => Ok(Arg::Float(num_div(&n, &d))),
            }
        },
        Arg::String(_) => {
            let d = b.coerce_i64();
            if d == 0 {
                Err(Error::DivisionByZeroError)
            } else {
                let x = acc.coerce_i64();
                match x.checked_div(d) {
                    Some(q) => Ok(Arg::Int(q)),
                    None => Ok(Arg::Int(i64::MIN)),
                }
            }
        },
        Arg::Array(_) => Ok(Arg::Null),
        Arg::Expr(_) => Ok(Arg::Null),
    }
}

/// One remainder step of the fold; a zero-valued divisor is a typed error.
fn rem_step(acc: Arg, b: &Arg) -> (r: Result<Arg, Error>)
    ensures
        r matches Ok(a) ==> rem_step_v(acc@, b@) == Ok::<ArgV, Error>(a@),
        r matches Err(e) ==> rem_step_v(acc@, b@) == Err::<ArgV, Error>(e),
{
    match acc {
        Arg::Null => Ok(Arg::Int(0)),
        Arg::Bool(x) => {
            let d = b.coerce_i64();
            if d == 0 {
                Err(Error::DivisionByZeroError)
            } else {
                let y: i64 = if x {
                    1
                } else {
                    0
                };
                match y.checked_rem(d) {
                    Some(q) => Ok(Arg::Int(q)),
                    None => Ok(Arg::Int(0)),
                }
            }
        },
        Arg::Int(x) => {
            let d = b.coerce_i64();
            if d == 0 {
                Err(Error::DivisionByZeroError)
            } else {
                match x.checked_rem(d) {
                    Some(q) => Ok(Arg::Int(q)),
                    None => Ok(Arg::Int(0)),
                }
            }
        },
        Arg::Float(n) => {
            let d = b.coerce_jnum();
            let z = num_from_i64(0);
            match num_cmp(&d, &z) {
                Ordering::Equal => Err(Error::DivisionByZeroError),
                _ => Ok(Arg::Float(num_rem(&n, &d))),
            }
        },
        Arg::String(_) => {
            let d = b.coerce_i64();
            if d == 0 {
                Err(Error::DivisionByZeroError)
            } else {
                let x = acc.coerce_i64();
                match x.checked_rem(d) {
                    Some(q) => Ok(Arg::Int(q)),
                    None => Ok(Arg::Int(0)),
                }
            }
        },
        Arg::Array(_) => Ok(Arg::Null),
        Arg::Expr(_) => Ok(Arg::Null),
    }
}

/// Addition (concatenation on a string subject), folded left to right over
/// the arguments; null when there are none.
#[verifier::loop_isolation(false)]
pub fn add(args: Vec<Arg>) -> (r: Arg)
    ensures
        r@ == op_add_v(args_view(args@)),
{
    let n = args.len();
    if n == 0 {
        return Arg::Null;
    }
    let ghost vs = args_view(args@);
    let mut acc = args[0].duplicate();
    let mut i: usize = 1;
    while i < n
        invariant
            1 <= i <= n,
            add_fold_v(acc@, vs.subrange(i as int, n as int)) == add_fold_v(
                vs[0],
                vs.subrange(1, n as int),
            ),
        decreases n - i,
    {
        proof {
            let rest = vs.subrange(i as int, n as int);
            assert(rest[0] == vs[i as int]);
            assert(rest.drop_first() =~= vs.subrange(i as int + 1, n as int));
        }
        acc = add_step(acc, &args[i]);
        i = i + 1;
    }
    proof {
        assert(vs.subrange(n as int, n as int) =~= Seq::<ArgV>::empty());
        assert(vs.subrange(1, n as int) == vs.drop_first());
    }
    acc
}

/// Subtraction, folded left to right over the arguments.
#[verifier::loop_isolation(false)]
pub fn sub(args: Vec<Arg>) -> (r: Arg)
    ensures
        r@ == op_sub_v(args_view(args@)),
{
    let n = args.len();
    if n == 0 {
        return Arg::Null;
    }
    let ghost vs = args_view(args@);
    let mut acc = args[0].duplicate();
    let mut i: usize = 1;
    while i < n
        invariant
            1 <= i <= n,
            sub_fold_v(acc@, vs.subrange(i as int, n as int)) == sub_fold_v(
                vs[0],
                vs.subrange(1, n as int),
            ),
        decreases n - i,
    {
        proof {
            let rest = vs.subrange(i as int, n as int);
            assert(rest[0] == vs[i as int]);
            assert(rest.drop_first() =~= vs.subrange(i as int + 1, n as int));
        }
        acc = sub_step(acc, &args[i]);
        i = i + 1;
    }
    proof {
        assert(vs.subrange(n as int, n as int) =~= Seq::<ArgV>::empty());
        assert(vs.subrange(1, n as int) == vs.drop_first());
    }
    acc
}

/// Multiplication, folded left to right over the arguments.
#[verifier::loop_isolation(false)]
pub fn mul(args: Vec<Arg>) -> (r: Arg)
    ensures
        r@ == op_mul_v(args_view(args@)),
{
    let n = args.len();
    if n == 0 {
        return Arg::Null;
    }
    let ghost vs = args_view(args@);
    let mut acc = args[0].duplicate();
    let mut i: usize = 1;
    while i < n
        invariant
            1 <= i <= n,
            mul_fold_v(acc@, vs.subrange(i as int, n as int)) == mul_fold_v(
                vs[0],
                vs.subrange(1, n as int),
            ),
        decreases n - i,
    {
        proof {
            let rest = vs.subrange(i as int, n as int);
            assert(rest[0] == vs[i as int]);
            assert(rest.drop_first() =~= vs.subrange(i as int + 1, n as int));
        }
        acc = mul_step(acc, &args[i]);
        i = i + 1;
    }
    proof {
        assert(vs.subrange(n as int, n as int) =~= Seq::<ArgV>::empty());
        assert(vs.subrange(1, n as int) == vs.drop_first());
    }
    acc
}

/// Division, folded left to right; a zero-valued divisor surfaces as a
/// typed error rather than a crash.
#[verifier::loop_isolation(false)]
pub fn div(args: Vec<Arg>) -> (r: Result<Arg, Error>)
    ensures
        r matches Ok(a) ==> op_div_v(args_view(args@)) == Ok::<ArgV, Error>(a@),
        r matches Err(e) ==> op_div_v(args_view(args@)) == Err::<ArgV, Error>(e),
{
    let n = args.len();
    if n == 0 {
        return Ok(Arg::Null);
    }
    let ghost vs = args_view(args@);
    let mut acc = args[0].duplicate();
    let mut i: usize = 1;
    while i < n
        invariant
            1 <= i <= n,
            div_fold_v(acc@, vs.subrange(i as int, n as int)) == div_fold_v(
                vs[0],
                vs.subrange(1, n as int),
            ),
        decreases n - i,
    {
        proof {
            let rest = vs.subrange(i as int, n as int);
            assert(rest[0] == vs[i as int]);
            assert(rest.drop_first() =~= vs.subrange(i as int + 1, n as int));
        }
        match div_step(acc, &args[i]) {
            Ok(x) => {
                acc = x;
            },
            Err(e) => {
                return Err(e);
            },
        }
        i = i + 1;
    }
    proof {
        assert(vs.subrange(n as int, n as int) =~= Seq::<ArgV>::empty());
        assert(vs.subrange(1, n as int) == vs.drop_first());
    }
    Ok(acc)
}

/// Remainder, folded left to right; a zero-valued divisor surfaces as a
/// typed error rather than a crash.
#[verifier::loop_isolation(false)]
pub fn rem(args: Vec<Arg>) -> (r: Result<Arg, Error>)
    ensures
        r matches Ok(a) ==> op_rem_v(args_view(args@)) == Ok::<ArgV, Error>(a@),
        r matches Err(e) ==> op_rem_v(args_view(args@)) == Err::<ArgV, Error>(e),
{
    let n = args.len();
    if n == 0 {
        return Ok(Arg::Null);
    }
    let ghost vs = args_view(args@);
    let mut acc = args[0].duplicate();
    let mut i: usize = 1;
    while i < n
        invariant
            1 <= i <= n,
            rem_fold_v(acc@, vs.subrange(i as int, n as int)) == rem_fold_v(
                vs[0],
                vs.subrange(1, n as int),
            ),
        decreases n - i,
    {
        proof {
            let rest = vs.subrange(i as int, n as int);
            assert(rest[0] == vs[i as int]);
            assert(rest.drop_first() =~= vs.subrange(i as int + 1, n as int));
        }
        match rem_step(acc, &args[i]) {
            Ok(x) => {
                acc = x;
            },
            Err(e) => {
                return Err(e);
            },
        }
        i = i + 1;
    }
    proof {
        assert(vs.subrange(n as int, n as int) =~= Seq::<ArgV>::empty());
        assert(vs.subrange(1, n as int) == vs.drop_first());
    }
    Ok(acc)
}

/// Integer negation of the first argument's integer coercion; wraps on the
/// one overflowing value.
pub fn neg(args: Vec<Arg>) -> (r: Arg)
    ensures
        r@ == op_neg_v(args_view(args@)),
{
    let a0 = take_arg0(&args);
    let x = a0.coerce_i64();
    Arg::Int((0i64).wrapping_sub(x))
}

/// Integer absolute value of the first argument's integer coercion; a
/// float truncates first, and the one overflowing value wraps.
pub fn abs(args: Vec<Arg>) -> (r: Arg)
    ensures
        r@ == op_abs_v(args_view(args@)),
{
    let a0 = take_arg0(&args);
    let x = a0.coerce_i64();
    if x < 0 {
        Arg::Int((0i64).wrapping_sub(x))
    } else {
        Arg::Int(x)
    }
}

/// Membership: whether the first argument equals any of the rest.
#[verifier::loop_isolation(false)]
pub fn in_op(args: Vec<Arg>) -> (r: Arg)
    ensures
        r@ == op_in_v(args_view(args@)),
{
    let n = args.len();
    if n == 0 {
        return Arg::Bool(false);
    }
    let mut i: usize = 1;
    while i < n
        invariant
            1 <= i <= n,
            forall|k: int| 1 <= k < i ==> !eq_v(#[trigger] args_view(args@)[k], args_view(args@)[0]),
        decreases n - i,
    {
        if arg_eq(&args[i], &args[0]) {
            assert(eq_v(args_view(args@)[i as int], args_view(args@)[0]));
            return Arg::Bool(true);
        }
        i = i + 1;
    }
    Arg::Bool(false)
}

/// Prefix test: on a string subject against the second argument's text, on
/// an array subject against the remaining arguments; false otherwise.
#[verifier::loop_isolation(false)]
pub fn startswith(args: Vec<Arg>) -> (r: Arg)
    ensures
        r@ == op_startswith_v(args_view(args@)),
{
    let n = args.len();
    if n == 0 {
        return Arg::Bool(false);
    }
    let ghost vs = args_view(args@);
    match &args[0] {
        Arg::String(t) => {
            let p = take_arg1(&args).coerce_string();
            Arg::Bool(str_starts_with(t.as_str(), p.as_str()))
        },
        Arg::Array(x) => {
            let m = n - 1;
            if m > x.len() {
                assert(vs.drop_first().len() > vs[0]->Array_0.len());
                return Arg::Bool(false);
            }
            let mut j: usize = 0;
            while j < m
                invariant
                    0 <= j <= m,
                    forall|k: int| 0 <= k < j ==> eq_v(
                        #[trigger] vs[0]->Array_0[k],
                        vs.drop_first()[k],
                    ),
                decreases m - j,
            {
                if !arg_eq(&x[j], &args[1 + j]) {
                    assert(vs[0]->Array_0[j as int] == arg_view(x@[j as int]));
                    assert(vs.drop_first()[j as int] == vs[j as int + 1]);
                    return Arg::Bool(false);
                }
                assert(vs[0]->Array_0[j as int] == arg_view(x@[j as int]));
                assert(vs.drop_first()[j as int] == vs[j as int + 1]);
                j = j + 1;
            }
            Arg::Bool(true)
        },
        _ => Arg::Bool(false),
    }
}

/// Suffix test: the mirror of `startswith`.
#[verifier::loop_isolation(false)]
pub fn endswith(args: Vec<Arg>) -> (r: Arg)
    ensures
        r@ == op_endswith_v(args_view(args@)),
{
    let n = args.len();
    if n == 0 {
        return Arg::Bool(false);
    }
    let ghost vs = args_view(args@);
    match &args[0] {
        Arg::String(t) => {
            let p = take_arg1(&args).coerce_string();
            Arg::Bool(str_ends_with(t.as_str(), p.as_str()))
        },
        Arg::Array(x) => {
            let m = n - 1;
            let xn = x.len();
            if m > xn {
                assert(vs.drop_first().len() > vs[0]->Array_0.len());
                return Arg::Bool(false);
            }
            let off = xn - m;
            let mut j: usize = 0;
            while j < m
                invariant
                    0 <= j <= m,
                    off == xn - m,
                    forall|k: int| 0 <= k < j ==> eq_v(
                        #[trigger] vs[0]->Array_0[off + k],
                        vs.drop_first()[k],
                    ),
                decreases m - j,
            {
                if !arg_eq(&x[off + j], &args[1 + j]) {
                    assert(vs[0]->Array_0[off + j as int] == arg_view(x@[off + j as int]));
                    assert(vs.drop_first()[j as int] == vs[j as int + 1]);
                    return Arg::Bool(false);
                }
                assert(vs[0]->Array_0[off + j as int] == arg_view(x@[off + j as int]));
                assert(vs.drop_first()[j as int] == vs[j as int + 1]);
                j = j + 1;
            }
            Arg::Bool(true)
        },
        _ => Arg::Bool(false),
    }
}

/// Split the first argument's text on the second argument's text, yielding
/// an array of strings.
#[verifier::loop_isolation(false)]
pub fn split(args: Vec<Arg>) -> (r: Arg)
    ensures
        r@ == op_split_v(args_view(args@)),
{
    let t0 = take_arg0(&args).coerce_string();
    let t1 = take_arg1(&args).coerce_string();
    let parts = split_string(t0.as_str(), t1.as_str());
    let mut out: Vec<Arg> = Vec::new();
    let n = parts.len();
    let mut i: usize = 0;
    while i < n
        invariant
            0 <= i <= n,
            n == parts@.len(),
            out@.len() == i,
            forall|k: int| 0 <= k < i ==> arg_view(#[trigger] out@[k]) == ArgV::String(
                texts_view(parts@)[k],
            ),
        decreases n - i,
    {
        out.push(Arg::String(parts[i].clone()));
        assert(texts_view(parts@)[i as int] == parts@[i as int]@);
        i = i + 1;
    }
    let r = Arg::Array(out);
    proof {
        assert(r@->Array_0 =~= split_of(t0@, t1@).map_values(|t| ArgV::String(t)));
    }
    r
}

/// Join the remaining arguments' texts with the first argument's text as
/// the separator.
#[verifier::loop_isolation(false)]
pub fn join(args: Vec<Arg>) -> (r: Arg)
    ensures
        r@ == op_join_v(args_view(args@)),
{
    let n = args.len();
    if n == 0 {
        return Arg::String(String::new());
    }
    let ghost vs = args_view(args@);
    let ghost parts = vs.drop_first().map_values(|a| to_text_v(a));
    let sep = args[0].duplicate().coerce_string();
    let mut out = String::new();
    let mut i: usize = 1;
    proof {
        assert(parts.subrange(0, 0) =~= Seq::<Seq<char>>::empty());
    }
    while i < n
        invariant
            1 <= i <= n,
            sep@ == to_text_v(vs[0]),
            out@ == join_of(parts.subrange(0, i - 1), sep@),
        decreases n - i,
    {
        if i > 1 {
            out.append(sep.as_str());
        }
        let t = args[i].coerce_string();
        out.append(t.as_str());
        proof {
            let q = parts.subrange(0, i - 1);
            assert(parts[i - 1] == to_text_v(vs[i as int]));
            assert(q.push(parts[i - 1]) =~= parts.subrange(0, i as int));
            lemma_join_push(q, parts[i - 1], sep@);
        }
        i = i + 1;
    }
    proof {
        assert(parts.subrange(0, n - 1) =~= parts);
    }
    Arg::String(out)
}

/// Lower-case the first argument's text.
pub fn lower(args: Vec<Arg>) -> (r: Arg)
    ensures
        r@ == op_lower_v(args_view(args@)),
{
    let t = take_arg0(&args).coerce_string();
    Arg::String(str_lower(t.as_str()))
}

/// Upper-case the first argument's text.
pub fn upper(args: Vec<Arg>) -> (r: Arg)
    ensures
        r@ == op_upper_v(args_view(args@)),
{
    let t = take_arg0(&args).coerce_string();
    Arg::String(str_upper(t.as_str()))
}

/// Shell-glob match of the second argument's text against the first
/// argument's text.
pub fn match_op(args: Vec<Arg>) -> (r: Arg)
    ensures
        r@ == op_match_v(args_view(args@)),
{
    let t0 = take_arg0(&args).coerce_string();
    let t1 = take_arg1(&args).coerce_string();
    Arg::Bool(glob_match_strs(t1.as_str(), t0.as_str()))
}

/// Regular-expression match of the second argument's text against the
/// first argument's text.
pub fn regex(args: Vec<Arg>) -> (r: Arg)
    ensures
        r@ == op_regex_v(args_view(args@)),
{
    let t0 = take_arg0(&args).coerce_string();
    let t1 = take_arg1(&args).coerce_string();
    Arg::Bool(regex_match_strs(t1.as_str(), t0.as_str()))
}

/// Cast the first argument to a number: numbers pass through, a string is
/// parsed as an integer, then as a float, then falls back to integer zero.
pub fn num(args: Vec<Arg>) -> (r: Arg)
    ensures
        r@ == op_num_v(args_view(args@)),
{
    let a0 = take_arg0(&args);
    match &a0 {
        Arg::Int(v) => Arg::Int(*v),
        Arg::Float(nn) => Arg::Float(nn.clone()),
        Arg::String(t) => match parse_i64_str(t.as_str()) {
            Some(i) => Arg::Int(i),
            None => match num_parse(t.as_str()) {
                Some(x) => Arg::Float(x),
                None => Arg::Int(0),
            },
        },
        _ => Arg::Int(a0.coerce_i64()),
    }
}

/// Cast the first argument to a string.
pub fn string(args: Vec<Arg>) -> (r: Arg)
    ensures
        r@ == op_string_v(args_view(args@)),
{
    Arg::String(take_arg0(&args).coerce_string())
}

/// Dispatch a kind on an argument list.  Only division and remainder can
/// fail; every other builtin is total.
pub fn apply(kind: OpKind, args: Vec<Arg>) -> (r: Result<Arg, Error>)
    ensures
        r matches Ok(a) ==> apply_op_v(kind, args_view(args@)) == Ok::<ArgV, Error>(a@),
        r matches Err(e) ==> apply_op_v(kind, args_view(args@)) == Err::<ArgV, Error>(e),
{
    match kind {
        OpKind::Var => Ok(crate::op::var(args)),
        OpKind::OpEq => Ok(crate::op::eq(args)),
        OpKind::OpLt => Ok(crate::op::lt(args)),
        OpKind::OpLe => Ok(crate::op::le(args)),
        OpKind::OpNe => Ok(crate::op::ne(args)),
        OpKind::OpGe => Ok(crate::op::ge(args)),
        OpKind::OpGt => Ok(crate::op::gt(args)),
        OpKind::OpAnd => Ok(crate::op::and(args)),
        OpKind::OpOr => Ok(crate::op::or(args)),
        OpKind::OpNot => Ok(crate::op::not(args)),
        OpKind::OpAdd => Ok(crate::op::add(args)),
        OpKind::OpSub => Ok(crate::op::sub(args)),
        OpKind::OpNeg => Ok(crate::op::neg(args)),
        OpKind::OpMul => Ok(crate::op::mul(args)),
        OpKind::OpDiv => crate::op::div(args),
        OpKind::OpRem => crate::op::rem(args),
        OpKind::OpAbs => Ok(crate::op::abs(args)),
        OpKind::OpIn => Ok(crate::op::in_op(args)),
        OpKind::OpStartsWith => Ok(crate::op::startswith(args)),
        OpKind::OpEndsWith => Ok(crate::op::endswith(args)),
        OpKind::OpSplit => Ok(crate::op::split(args)),
        OpKind::OpJoin => Ok(crate::op::join(args)),
        OpKind::OpLower => Ok(crate::op::lower(args)),
        OpKind::OpUpper => Ok(crate::op::upper(args)),
        OpKind::OpMatch => Ok(crate::op::match_op(args)),
        OpKind::OpRegex => Ok(crate::op::regex(args)),
        OpKind::OpNum => Ok(crate::op::num(args)),
        OpKind::OpString => Ok(crate::op::string(args)),
    }
}

} // verus!


