//! Laws of the engine: properties that hold of every rule and context,
//! stated over the same spec functions the public contracts use.

use vstd::prelude::*;
use crate::arg::{ArgV, to_bool_v, no_expr_v};
use crate::error::Error;
use crate::node::NodeV;
use crate::op::{
    OpKind, op_lookup, apply_op_v, op_split_v, add_fold_v, sub_fold_v, mul_fold_v, div_fold_v,
    rem_fold_v, add_step_v, sub_step_v, mul_step_v, div_step_v, rem_step_v,
};
use crate::rule::{
    ExprV, build_top, build_items, build_arg, finish_expr, node_items, eval_expr,
    eval_var, implicit_resolve, resolve_args_from, rule_eval,
};

verus! {

/// What a successful element conversion looks like, position by position.
proof fn lemma_build_items_shape(parent: NodeV, i: int)
    requires
        0 <= i <= node_items(parent).len(),
        build_items(parent, i) is Ok,
    ensures
        build_items(parent, i)->Ok_0.len() == node_items(parent).len() - i,
        forall|k: int|
            i <= k < node_items(parent).len() ==> (build_arg(#[trigger] node_items(parent)[k])
                matches Ok(a) && build_items(parent, i)->Ok_0[k - i] == a),
    decreases node_items(parent).len() - i,
{
    if i < node_items(parent).len() {
        lemma_build_items_shape(parent, i + 1);
    }
}

/// Building from an empty array is rejected with the dedicated error, not
/// by crashing.
pub proof fn lemma_build_empty()
    ensures
        build_top(NodeV::Array(Seq::empty())) == Err::<ExprV, Error>(Error::EmptyExprError),
{
    assert(node_items(NodeV::Array(Seq::<NodeV>::empty())).len() == 0);
}

/// Building from anything that is not an array is rejected.
pub proof fn lemma_build_not_array(n: NodeV)
    requires
        !(n is Array),
    ensures
        build_top(n) == Err::<ExprV, Error>(Error::ExprIsNotArrayError),
{
}

/// A well-formed tree builds successfully: it is a non-empty array, its
/// first element is a plain string naming a registered operator, and every
/// element converts.
pub proof fn lemma_build_wellformed(items: Seq<NodeV>, nm: Seq<char>)
    requires
        items.len() > 0,
        items[0] == NodeV::String(nm),
        op_lookup(nm) is Some,
        build_items(NodeV::Array(items), 0) is Ok,
    ensures
        build_top(NodeV::Array(items)) matches Ok(e) && e.name == nm && op_lookup(nm) == Some(
            e.kind,
        ) && e.args == build_items(NodeV::Array(items), 0)->Ok_0.drop_first(),
{
    let parent = NodeV::Array(items);
    lemma_build_items_shape(parent, 0);
    let a = build_items(parent, 0)->Ok_0;
    assert(a[0] == build_arg(items[0])->Ok_0);
    assert(a[0] == ArgV::String(nm));
}

/// A tree whose first element is not a plain string is rejected with the
/// corresponding error, provided every element converts.
pub proof fn lemma_build_op_not_string(items: Seq<NodeV>)
    requires
        items.len() > 0,
        !(items[0] is String),
        build_items(NodeV::Array(items), 0) is Ok,
    ensures
        build_top(NodeV::Array(items)) == Err::<ExprV, Error>(Error::ExprOpIsNotStringError),
{
    let parent = NodeV::Array(items);
    lemma_build_items_shape(parent, 0);
    let a = build_items(parent, 0)->Ok_0;
    assert(a[0] == build_arg(items[0])->Ok_0);
    assert(!(a[0] is String));
}

/// A tree whose first element names no registered operator is rejected
/// with the corresponding error.
pub proof fn lemma_build_unknown_op(items: Seq<NodeV>, nm: Seq<char>)
    requires
        items.len() > 0,
        items[0] == NodeV::String(nm),
        op_lookup(nm) is None,
        build_items(NodeV::Array(items), 0) is Ok,
    ensures
        build_top(NodeV::Array(items)) == Err::<ExprV, Error>(Error::NoSuchOpError),
{
    let parent = NodeV::Array(items);
    lemma_build_items_shape(parent, 0);
    let a = build_items(parent, 0)->Ok_0;
    assert(a[0] == build_arg(items[0])->Ok_0);
    assert(a[0] == ArgV::String(nm));
}

/// Argument resolution reads only the arguments from the given position
/// on: two expressions that agree there resolve identically.
proof fn lemma_resolve_congruent(e1: ExprV, e2: ExprV, ctx: Map<Seq<char>, ArgV>, i: int)
    requires
        e1.args.len() == e2.args.len(),
        forall|k: int| i <= k < e1.args.len() ==> e1.args[k] == #[trigger] e2.args[k],
    ensures
        resolve_args_from(e1, ctx, i) == resolve_args_from(e2, ctx, i),
    decreases e1.args.len() - i,
{
    if 0 <= i < e1.args.len() {
        lemma_resolve_congruent(e1, e2, ctx, i + 1);
    }
}

/// The expression the `var` operator wraps around a key.
pub open spec fn var_expr(k: Seq<char>) -> ExprV {
    ExprV { name: "var"@, kind: OpKind::Var, args: seq![ArgV::String(k)] }
}

/// A `var` lookup of a key the context holds yields the context's value.
pub proof fn lemma_var_hit(k: Seq<char>, ctx: Map<Seq<char>, ArgV>)
    requires
        ctx.contains_key(k),
    ensures
        eval_expr(var_expr(k), ctx) == Ok::<ArgV, Error>(ctx[k]),
{
    let e = var_expr(k);
    assert(resolve_args_from(e, ctx, 1) == Ok::<Seq<ArgV>, Error>(Seq::empty()));
    assert(resolve_args_from(e, ctx, 0) == Ok::<Seq<ArgV>, Error>(seq![ArgV::String(k)] + Seq::<
        ArgV,
    >::empty()));
    assert((seq![ArgV::String(k)] + Seq::<ArgV>::empty()) =~= seq![ArgV::String(k)]);
    reveal_strlit("var");
    assert(eval_var(seq![ArgV::String(k)], ctx) == Ok::<ArgV, Error>(ctx[k]));
}

/// `var` is strict: looking up a key the context does not hold is a hard
/// error.
pub proof fn lemma_var_strictness(k: Seq<char>, ctx: Map<Seq<char>, ArgV>)
    requires
        !ctx.contains_key(k),
    ensures
        eval_expr(var_expr(k), ctx) == Err::<ArgV, Error>(Error::ContextNoSuchVarError),
{
    let e = var_expr(k);
    assert(resolve_args_from(e, ctx, 1) == Ok::<Seq<ArgV>, Error>(Seq::empty()));
    assert(resolve_args_from(e, ctx, 0) == Ok::<Seq<ArgV>, Error>(seq![ArgV::String(k)] + Seq::<
        ArgV,
    >::empty()));
    assert((seq![ArgV::String(k)] + Seq::<ArgV>::empty()) =~= seq![ArgV::String(k)]);
    reveal_strlit("var");
}

/// Implicit resolution is lenient: a first argument naming no context
/// entry stays exactly the literal it was, and no error arises from it.
pub proof fn lemma_implicit_miss_keeps_literal(ra: Seq<ArgV>, ctx: Map<Seq<char>, ArgV>, k: Seq<
    char,
>)
    requires
        ra.len() > 0,
        ra[0] == ArgV::String(k),
        !ctx.contains_key(k),
    ensures
        implicit_resolve(ra, ctx) == ra,
{
}

/// Writing a context key as a bare first argument is the same as wrapping
/// it in `var`, for every operator but `var` itself — provided the found
/// value is not itself the name of another context entry, where the bare
/// form would resolve a second time.
pub proof fn lemma_implicit_var_equivalence(e: ExprV, ctx: Map<Seq<char>, ArgV>, k: Seq<char>)
    requires
        e.name != "var"@,
        e.args.len() > 0,
        e.args[0] == ArgV::String(k),
        ctx.contains_key(k),
        !(ctx[k] is String && ctx.contains_key(ctx[k]->String_0)),
    ensures
        eval_expr(e, ctx) == eval_expr(
            ExprV { name: e.name, kind: e.kind, args: e.args.update(0, ArgV::Expr(var_expr(k))) },
            ctx,
        ),
{
    let e2 = ExprV { name: e.name, kind: e.kind, args: e.args.update(0, ArgV::Expr(var_expr(k))) };
    lemma_var_hit(k, ctx);
    lemma_resolve_congruent(e, e2, ctx, 1);
    let tail = resolve_args_from(e, ctx, 1);
    assert(resolve_args_from(e, ctx, 0) == (match tail {
        Err(er) => Err::<Seq<ArgV>, Error>(er),
        Ok(rest) => Ok::<Seq<ArgV>, Error>(seq![ArgV::String(k)] + rest),
    }));
    assert(e2.args[0] == ArgV::Expr(var_expr(k)));
    assert(resolve_args_from(e2, ctx, 0) == (match tail {
        Err(er) => Err::<Seq<ArgV>, Error>(er),
        Ok(rest) => Ok::<Seq<ArgV>, Error>(seq![ctx[k]] + rest),
    }));
    match tail {
        Err(_) => {
        },
        Ok(rest) => {
            let ra1 = seq![ArgV::String(k)] + rest;
            let ra2 = seq![ctx[k]] + rest;
            assert(ra1[0] == ArgV::String(k));
            assert(implicit_resolve(ra1, ctx) =~= ra2);
            assert(implicit_resolve(ra2, ctx) == ra2);
        },
    }
}

/// A non-empty string coerces to false — the engine's documented quirk —
/// so negating one yields true.
pub proof fn lemma_nonempty_string_is_falsy(s: Seq<char>)
    requires
        s.len() > 0,
    ensures
        to_bool_v(ArgV::String(s)) == false,
        apply_op_v(OpKind::OpNot, seq![ArgV::String(s)]) == Ok::<ArgV, Error>(ArgV::Bool(true)),
{
    assert(seq![ArgV::String(s)][0] == ArgV::String(s));
}

/// Evaluation is a pure function of the rule and the context: two results
/// that both satisfy the evaluator's contract on the same rule and context
/// are identical, so re-evaluating an immutable rule cannot change the
/// verdict.
pub proof fn lemma_matches_idempotent(
    e: ExprV,
    cv: serde_json::Value,
    r1: Result<bool, Error>,
    r2: Result<bool, Error>,
)
    requires
        r1 == rule_eval(e, cv),
        r2 == rule_eval(e, cv),
    ensures
        r1 == r2,
{
}


// ---------------------------------------------------------------------------
// no expression survives a completed evaluation

/// Whether an argument could have come out of the builder: scalars and
/// nested expressions whose own arguments could, never a bare array.
pub open spec fn built_lit(a: ArgV) -> bool
    decreases a,
{
    match a {
        ArgV::Array(_) => false,
        ArgV::Expr(e) => forall|i: int| 0 <= i < e.args.len() ==> built_lit(#[trigger] e.args[i]),
        _ => true,
    }
}

/// Whether an expression could have come out of the builder.
pub open spec fn built_expr(e: ExprV) -> bool {
    built_lit(ArgV::Expr(e))
}

/// Everything the element conversion yields could have come out of the
/// builder.
proof fn lemma_build_items_built(parent: NodeV, i: int)
    ensures
        build_items(parent, i) matches Ok(s) ==> forall|j: int|
            0 <= j < s.len() ==> built_lit(#[trigger] s[j]),
    decreases parent, node_items(parent).len() - i,
{
    let items = node_items(parent);
    if 0 <= i < items.len() {
        if parent is Array {
            assert(decreases_to!(parent => parent->Array_0));
            assert(decreases_to!(parent->Array_0 => parent->Array_0[i]));
        }
        if parent is Object {
            assert(decreases_to!(parent => parent->Object_0));
            assert(decreases_to!(parent->Object_0 => parent->Object_0[i]));
        }
        lemma_build_arg_built(items[i]);
        lemma_build_items_built(parent, i + 1);
        if build_items(parent, i) is Ok {
            let a = build_arg(items[i])->Ok_0;
            let rest = build_items(parent, i + 1)->Ok_0;
            assert forall|j: int| 0 <= j < (seq![a] + rest).len() implies built_lit(
                #[trigger] (seq![a] + rest)[j],
            ) by {
                if j > 0 {
                    assert((seq![a] + rest)[j] == rest[j - 1]);
                }
            }
        }
    }
}

/// Everything the builder yields could have come out of the builder.
proof fn lemma_build_arg_built(n: NodeV)
    ensures
        build_arg(n) matches Ok(a) ==> built_lit(a),
    decreases n, node_items(n).len() + 2,
{
    if n is Array || n is Object {
        lemma_build_items_built(n, 0);
        if build_arg(n) is Ok {
            let s = build_items(n, 0)->Ok_0;
            let e = finish_expr(s)->Ok_0;
            assert forall|i: int| 0 <= i < e.args.len() implies built_lit(
                #[trigger] e.args[i],
            ) by {
                assert(e.args[i] == s[i + 1]);
            }
        }
    }
}

/// A successfully built rule is in the builder's image.
pub proof fn lemma_built_rule(n: NodeV)
    ensures
        build_top(n) matches Ok(e) ==> built_expr(e),
{
    if n is Array {
        lemma_build_items_built(NodeV::Array(n->Array_0), 0);
        if build_top(n) is Ok {
            let s = build_items(NodeV::Array(n->Array_0), 0)->Ok_0;
            let e = finish_expr(s)->Ok_0;
            assert forall|i: int| 0 <= i < e.args.len() implies built_lit(
                #[trigger] e.args[i],
            ) by {
                assert(e.args[i] == s[i + 1]);
            }
        }
    }
}

/// An addition fold of expression-free arguments stays expression-free.
proof fn lemma_add_fold_no_expr(acc: ArgV, rest: Seq<ArgV>)
    requires
        no_expr_v(acc),
    ensures
        no_expr_v(add_fold_v(acc, rest)),
    decreases rest.len(),
{
    if rest.len() > 0 {
        assert(no_expr_v(add_step_v(acc, rest[0])));
        lemma_add_fold_no_expr(add_step_v(acc, rest[0]), rest.drop_first());
    }
}

/// A subtraction fold of expression-free arguments stays expression-free.
proof fn lemma_sub_fold_no_expr(acc: ArgV, rest: Seq<ArgV>)
    requires
        no_expr_v(acc),
    ensures
        no_expr_v(sub_fold_v(acc, rest)),
    decreases rest.len(),
{
    if rest.len() > 0 {
        assert(no_expr_v(sub_step_v(acc, rest[0])));
        lemma_sub_fold_no_expr(sub_step_v(acc, rest[0]), rest.drop_first());
    }
}

/// A multiplication fold of expression-free arguments stays
/// expression-free.
proof fn lemma_mul_fold_no_expr(acc: ArgV, rest: Seq<ArgV>)
    requires
        no_expr_v(acc),
    ensures
        no_expr_v(mul_fold_v(acc, rest)),
    decreases rest.len(),
{
    if rest.len() > 0 {
        assert(no_expr_v(mul_step_v(acc, rest[0])));
        lemma_mul_fold_no_expr(mul_step_v(acc, rest[0]), rest.drop_first());
    }
}

/// A division fold of expression-free arguments stays expression-free.
proof fn lemma_div_fold_no_expr(acc: ArgV, rest: Seq<ArgV>)
    requires
        no_expr_v(acc),
    ensures
        div_fold_v(acc, rest) matches Ok(a) ==> no_expr_v(a),
    decreases rest.len(),
{
    if rest.len() > 0 {
        match div_step_v(acc, rest[0]) {
            Ok(x) => {
                assert(no_expr_v(x));
                lemma_div_fold_no_expr(x, rest.drop_first());
            },
            Err(_) => {
            },
        }
    }
}

/// A remainder fold of expression-free arguments stays expression-free.
proof fn lemma_rem_fold_no_expr(acc: ArgV, rest: Seq<ArgV>)
    requires
        no_expr_v(acc),
    ensures
        rem_fold_v(acc, rest) matches Ok(a) ==> no_expr_v(a),
    decreases rest.len(),
{
    if rest.len() > 0 {
        match rem_step_v(acc, rest[0]) {
            Ok(x) => {
                assert(no_expr_v(x));
                lemma_rem_fold_no_expr(x, rest.drop_first());
            },
            Err(_) => {
            },
        }
    }
}

/// No builtin function hands back an unevaluated expression, given
/// expression-free arguments.
proof fn lemma_apply_no_expr(kind: OpKind, s: Seq<ArgV>)
    requires
        forall|i: int| 0 <= i < s.len() ==> no_expr_v(#[trigger] s[i]),
    ensures
        apply_op_v(kind, s) matches Ok(a) ==> no_expr_v(a),
{
    match kind {
        OpKind::OpAdd => {
            if s.len() > 0 {
                lemma_add_fold_no_expr(s[0], s.drop_first());
            }
        },
        OpKind::OpSub => {
            if s.len() > 0 {
                lemma_sub_fold_no_expr(s[0], s.drop_first());
            }
        },
        OpKind::OpMul => {
            if s.len() > 0 {
                lemma_mul_fold_no_expr(s[0], s.drop_first());
            }
        },
        OpKind::OpDiv => {
            if s.len() > 0 {
                lemma_div_fold_no_expr(s[0], s.drop_first());
            }
        },
        OpKind::OpRem => {
            if s.len() > 0 {
                lemma_rem_fold_no_expr(s[0], s.drop_first());
            }
        },
        OpKind::OpSplit => {
            let parts = op_split_v(s)->Array_0;
            assert forall|i: int| 0 <= i < parts.len() implies no_expr_v(
                #[trigger] parts[i],
            ) by {
                assert(parts[i] is String);
            }
        },
        _ => {
        },
    }
}

/// The resolved arguments of a built expression, against a materialized
/// context, are expression-free.
proof fn lemma_resolve_no_expr(e: ExprV, ctx: Map<Seq<char>, ArgV>, i: int)
    requires
        built_expr(e),
        forall|k: Seq<char>| ctx.contains_key(k) ==> no_expr_v(#[trigger] ctx[k]),
    ensures
        resolve_args_from(e, ctx, i) matches Ok(ra) ==> forall|j: int|
            0 <= j < ra.len() ==> no_expr_v(#[trigger] ra[j]),
    decreases e, e.args.len() - i,
{
    if 0 <= i < e.args.len() {
        assert(built_lit(e.args[i]));
        match e.args[i] {
            ArgV::Expr(sub) => {
                assert(decreases_to!(e => e.args));
                assert(decreases_to!(e.args => e.args[i]));
                lemma_eval_no_expr(sub, ctx);
            },
            _ => {
            },
        }
        lemma_resolve_no_expr(e, ctx, i + 1);
        if resolve_args_from(e, ctx, i) is Ok {
            let first = (match e.args[i] {
                ArgV::Expr(sub) => eval_expr(sub, ctx),
                other => Ok::<ArgV, Error>(other),
            });
            let a = first->Ok_0;
            let rest = resolve_args_from(e, ctx, i + 1)->Ok_0;
            assert(no_expr_v(a));
            assert forall|j: int| 0 <= j < (seq![a] + rest).len() implies no_expr_v(
                #[trigger] (seq![a] + rest)[j],
            ) by {
                if j > 0 {
                    assert((seq![a] + rest)[j] == rest[j - 1]);
                }
            }
        }
    }
}

/// A completed evaluation of a built rule against a materialized context
/// leaves no unevaluated expression in its result: the data model's
/// closing invariant.
pub proof fn lemma_eval_no_expr(e: ExprV, ctx: Map<Seq<char>, ArgV>)
    requires
        built_expr(e),
        forall|k: Seq<char>| ctx.contains_key(k) ==> no_expr_v(#[trigger] ctx[k]),
    ensures
        eval_expr(e, ctx) matches Ok(a) ==> no_expr_v(a),
    decreases e, e.args.len() + 1,
{
    lemma_resolve_no_expr(e, ctx, 0);
    match resolve_args_from(e, ctx, 0) {
        Err(_) => {
        },
        Ok(ra) => {
            if e.name == "var"@ {
            } else {
                let ra2 = implicit_resolve(ra, ctx);
                assert forall|j: int| 0 <= j < ra2.len() implies no_expr_v(
                    #[trigger] ra2[j],
                ) by {
                    if ra.len() > 0 && ra[0] is String && ctx.contains_key(ra[0]->String_0) {
                        if j > 0 {
                            assert(ra2[j] == ra[j]);
                        }
                    }
                }
                lemma_apply_no_expr(e.kind, ra2);
            }
        },
    }
}

} // verus!

