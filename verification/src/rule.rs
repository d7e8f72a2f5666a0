//! Expressions and rules.
//!
//! An expression is an operator resolved from the catalog at construction
//! time plus an ordered argument list; a rule owns one root expression.
//! Both are immutable once built: a rule may be evaluated any number of
//! times, against any number of contexts, and behaves identically each time.

use vstd::prelude::*;
use crate::arg::{Arg, ArgV, arg_view, args_view, eq_v};
use crate::error::Error;
use crate::jsonio::{
    json_tree, json_fields, json_dict_view, parsed_doc, node_from_json, value_as_object,
    parse_tree,
};
use crate::node::{Node, NodeV, nodes_view};
use crate::op::{Op, OpKind, op_lookup, apply_op_v};
use crate::text::str_eq_str;

verus! {

/// An expression node: a resolved operator and its arguments.
#[derive(Debug)]
pub struct Expr {
    /// The resolved operator, drawn from the catalog at construction time.
    pub op: Op,
    /// The ordered argument list, as the source tree supplied it.
    pub args: Vec<Arg>,
}

/// The mathematical shape of an [`Expr`]: the operator's registered name,
/// the function it is bound to, and the argument views.
pub struct ExprV {
    /// The name under which the operator was looked up.
    pub name: Seq<char>,
    /// The builtin function the operator is bound to.
    pub kind: OpKind,
    /// The views of the arguments.
    pub args: Seq<ArgV>,
}

/// The view of an expression.
pub open spec fn expr_view(e: Expr) -> ExprV
    decreases e,
{
    ExprV {
        name: e.op.name@,
        kind: e.op.kind,
        args: Seq::new(
            e.args@.len(),
            |i: int|
                if 0 <= i < e.args@.len() {
                    arg_view(e.args@[i])
                } else {
                    ArgV::Null
                },
        ),
    }
}

impl View for Expr {
    type V = ExprV;

    open spec fn view(&self) -> ExprV {
        expr_view(*self)
    }
}

impl Expr {
    /// An identical copy of the expression.
    #[verifier::loop_isolation(false)]
    pub fn duplicate(&self) -> (r: Expr)
        ensures
            r@ == self@,
        decreases self,
    {
        let mut out: Vec<Arg> = Vec::new();
        let n = self.args.len();
        let mut i: usize = 0;
        while i < n
            invariant
                0 <= i <= n,
                n == self.args@.len(),
                out@.len() == i,
                forall|k: int| 0 <= k < i ==> arg_view(#[trigger] out@[k]) == arg_view(
                    self.args@[k],
                ),
            decreases n - i,
        {
            proof {
                assert(decreases_to!(*self => self.args));
                assert(decreases_to!(self.args => self.args@));
                assert(decreases_to!(self.args@ => self.args@[i as int]));
            }
            let d = self.args[i].duplicate();
            out.push(d);
            i = i + 1;
        }
        let r = Expr { op: Op { name: self.op.name.clone(), kind: self.op.kind }, args: out };
        proof {
            assert(r@.args =~= self@.args);
        }
        r
    }
}

/// Structural equality of two expressions: same operator name, same
/// function, equal arguments.
#[verifier::loop_isolation(false)]
pub fn expr_eq(a: &Expr, b: &Expr) -> (r: bool)
    ensures
        r == eq_v(ArgV::Expr(a@), ArgV::Expr(b@)),
    decreases a,
{
    if !str_eq_str(a.op.name.as_str(), b.op.name.as_str()) {
        return false;
    }
    if !crate::op::kind_eq(a.op.kind, b.op.kind) {
        return false;
    }
    if a.args.len() != b.args.len() {
        return false;
    }
    let n = a.args.len();
    let mut i: usize = 0;
    while i < n
        invariant
            0 <= i <= n,
            n == a.args@.len(),
            n == b.args@.len(),
            forall|k: int| 0 <= k < i ==> eq_v(
                #[trigger] arg_view(a.args@[k]),
                arg_view(b.args@[k]),
            ),
        decreases n - i,
    {
        proof {
            assert(decreases_to!(*a => a.args));
            assert(decreases_to!(a.args => a.args@));
            assert(decreases_to!(a.args@ => a.args@[i as int]));
        }
        if !crate::arg::arg_eq(&a.args[i], &b.args[i]) {
            assert(!eq_v(a@.args[i as int], b@.args[i as int]));
            return false;
        }
        i = i + 1;
    }
    assert forall|k: int| 0 <= k < a@.args.len() implies eq_v(
        #[trigger] a@.args[k],
        b@.args[k],
    ) by {
        assert(a@.args[k] == arg_view(a.args@[k]));
        assert(b@.args[k] == arg_view(b.args@[k]));
    }
    true
}

/// A rule: the public handle owning one root expression.
#[derive(Debug)]
pub struct Rule {
    /// The root expression.
    pub expr: Expr,
}

impl View for Rule {
    type V = ExprV;

    open spec fn view(&self) -> ExprV {
        expr_view(self.expr)
    }
}


// ---------------------------------------------------------------------------
// building an expression from an input tree

/// The children of a list-like node; empty for scalars.
pub open spec fn node_items(n: NodeV) -> Seq<NodeV> {
    match n {
        NodeV::Array(l) => l,
        NodeV::Object(l) => l,
        _ => Seq::empty(),
    }
}

/// The argument a tree node builds to: scalars map directly, arrays and
/// objects recursively become unevaluated expressions.
pub open spec fn build_arg(n: NodeV) -> Result<ArgV, Error>
    decreases n, node_items(n).len() + 2,
{
    match n {
        NodeV::Null => Ok(ArgV::Null),
        NodeV::Bool(b) => Ok(ArgV::Bool(b)),
        NodeV::Int(i) => Ok(ArgV::Int(i)),
        NodeV::Float(x) => Ok(ArgV::Float(x)),
        NodeV::String(s) => Ok(ArgV::String(s)),
        NodeV::Array(_) => match build_expr_from(n) {
            Ok(e) => Ok(ArgV::Expr(e)),
            Err(e) => Err(e),
        },
        NodeV::Object(_) => match build_expr_from(n) {
            Ok(e) => Ok(ArgV::Expr(e)),
            Err(e) => Err(e),
        },
    }
}

/// The expression a list-like node builds to.
pub open spec fn build_expr_from(parent: NodeV) -> Result<ExprV, Error>
    decreases parent, node_items(parent).len() + 1,
{
    match build_items(parent, 0) {
        Ok(a) => finish_expr(a),
        Err(e) => Err(e),
    }
}

/// The arguments the children of a node build to, from position `i` on;
/// the first failure stops the conversion.
pub open spec fn build_items(parent: NodeV, i: int) -> Result<Seq<ArgV>, Error>
    decreases parent, node_items(parent).len() - i,
{
    let items = node_items(parent);
    if i < 0 || i >= items.len() {
        Ok(Seq::empty())
    } else {
        proof {
            if parent is Array {
                assert(decreases_to!(parent => parent->Array_0));
                assert(decreases_to!(parent->Array_0 => parent->Array_0[i]));
            }
            if parent is Object {
                assert(decreases_to!(parent => parent->Object_0));
                assert(decreases_to!(parent->Object_0 => parent->Object_0[i]));
            }
        }
        match build_arg(items[i]) {
            Err(e) => Err(e),
            Ok(a) => match build_items(parent, i + 1) {
                Err(e) => Err(e),
                Ok(rest) => Ok(seq![a] + rest),
            },
        }
    }
}

/// The last step of building: the converted elements must be non-empty,
/// headed by a plain string naming a registered operator.
pub open spec fn finish_expr(a: Seq<ArgV>) -> Result<ExprV, Error> {
    if a.len() == 0 {
        Err(Error::EmptyExprError)
    } else {
        match a[0] {
            ArgV::String(name) => match op_lookup(name) {
                Some(k) => Ok(ExprV { name, kind: k, args: a.drop_first() }),
                None => Err(Error::NoSuchOpError),
            },
            _ => Err(Error::ExprOpIsNotStringError),
        }
    }
}

/// The expression a sequence of tree nodes builds to.
pub open spec fn build_list(items: Seq<NodeV>) -> Result<ExprV, Error> {
    match build_items(NodeV::Array(items), 0) {
        Ok(a) => finish_expr(a),
        Err(e) => Err(e),
    }
}

/// The expression a whole input tree builds to: the tree must be an array.
pub open spec fn build_top(n: NodeV) -> Result<ExprV, Error> {
    match n {
        NodeV::Array(l) => build_list(l),
        _ => Err(Error::ExprIsNotArrayError),
    }
}

// ---------------------------------------------------------------------------
// evaluation

/// What looking the first argument up in the context yields under the
/// `var` operator: the key must be a string naming a context entry; both
/// failures are hard errors here and nowhere else.
pub open spec fn eval_var(ra: Seq<ArgV>, ctx: Map<Seq<char>, ArgV>) -> Result<ArgV, Error> {
    if ra.len() == 0 {
        Err(Error::ExprVarArgNotStringError)
    } else {
        match ra[0] {
            ArgV::String(k) => if ctx.contains_key(k) {
                Ok(ctx[k])
            } else {
                Err(Error::ContextNoSuchVarError)
            },
            _ => Err(Error::ExprVarArgNotStringError),
        }
    }
}

/// Implicit context resolution, applied to the first argument of every
/// operator but `var`: a string naming a context entry is replaced by that
/// entry's value; anything else is left exactly as given.
pub open spec fn implicit_resolve(ra: Seq<ArgV>, ctx: Map<Seq<char>, ArgV>) -> Seq<ArgV> {
    if ra.len() > 0 && ra[0] is String && ctx.contains_key(ra[0]->String_0) {
        ra.update(0, ctx[ra[0]->String_0])
    } else {
        ra
    }
}

/// What evaluating an expression against a context yields: nested
/// expressions resolve bottom-up, then `var` looks its key up, any other
/// operator gets implicit resolution of its first argument and is applied.
pub open spec fn eval_expr(e: ExprV, ctx: Map<Seq<char>, ArgV>) -> Result<ArgV, Error>
    decreases e, e.args.len() + 1,
{
    match resolve_args_from(e, ctx, 0) {
        Err(er) => Err(er),
        Ok(ra) => if e.name == "var"@ {
            eval_var(ra, ctx)
        } else {
            apply_op_v(e.kind, implicit_resolve(ra, ctx))
        },
    }
}

/// The resolved arguments of an expression from position `i` on: each
/// nested expression evaluates against the same context, anything else
/// passes through; the first error stops the resolution.
pub open spec fn resolve_args_from(e: ExprV, ctx: Map<Seq<char>, ArgV>, i: int) -> Result<
    Seq<ArgV>,
    Error,
>
    decreases e, e.args.len() - i,
{
    if i < 0 || i >= e.args.len() {
        Ok(Seq::empty())
    } else {
        proof {
            assert(decreases_to!(e => e.args));
            assert(decreases_to!(e.args => e.args[i]));
        }
        let first = match e.args[i] {
            ArgV::Expr(sub) => eval_expr(sub, ctx),
            other => Ok(other),
        };
        match first {
            Err(er) => Err(er),
            Ok(a) => match resolve_args_from(e, ctx, i + 1) {
                Err(er) => Err(er),
                Ok(rest) => Ok(seq![a] + rest),
            },
        }
    }
}

/// What evaluating a rule against a JSON context value yields: the context
/// must be an object, and the root expression must come out boolean.
pub open spec fn rule_eval(e: ExprV, cv: serde_json::Value) -> Result<bool, Error> {
    match json_fields(cv) {
        None => Err(Error::ContextNotDictError),
        Some(ctx) => match eval_expr(e, ctx) {
            Err(er) => Err(er),
            Ok(a) => match a {
                ArgV::Bool(b) => Ok(b),
                _ => Err(Error::FinalResultNotBoolError),
            },
        },
    }
}

// ---------------------------------------------------------------------------
// executable building

/// The last step of building an expression from converted elements.
pub(crate) fn finish_expr_exec(cargs: Vec<Arg>) -> (r: Result<Expr, Error>)
    ensures
        r matches Ok(e) ==> finish_expr(args_view(cargs@)) == Ok::<ExprV, Error>(e@),
        r matches Err(er) ==> finish_expr(args_view(cargs@)) == Err::<ExprV, Error>(er),
{
    if cargs.len() == 0 {
        return Err(Error::EmptyExprError);
    }
    let mut c = cargs;
    let head = c.remove(0);
    proof {
        assert(args_view(c@) =~= args_view(cargs@).drop_first());
        assert(head@ == args_view(cargs@)[0]);
    }
    match head {
        Arg::String(name_s) => match Op::lookup_kind(name_s.as_str()) {
            Some(k) => {
                let e = Expr { op: Op { name: name_s, kind: k }, args: c };
                proof {
                    assert(e@.args =~= args_view(c@));
                }
                Ok(e)
            },
            None => Err(Error::NoSuchOpError),
        },
        _ => Err(Error::ExprOpIsNotStringError),
    }
}

impl Expr {
    /// Builds an expression from a list of tree nodes: every element is
    /// converted first, then the head must be a string naming a registered
    /// operator.
    #[verifier::loop_isolation(false)]
    pub fn build_from_nodes(items: &Vec<Node>) -> (r: Result<Expr, Error>)
        ensures
            r matches Ok(e) ==> build_list(nodes_view(items@)) == Ok::<ExprV, Error>(e@),
            r matches Err(er) ==> build_list(nodes_view(items@)) == Err::<ExprV, Error>(er),
    {
        let ghost parent = NodeV::Array(nodes_view(items@));
        let mut cargs: Vec<Arg> = Vec::new();
        let n = items.len();
        let mut i: usize = 0;
        while i < n
            invariant
                0 <= i <= n,
                cargs@.len() == i,
                (build_items(parent, i as int) matches Ok(rest) ==> build_items(parent, 0)
                    == Ok::<Seq<ArgV>, Error>(args_view(cargs@) + rest)),
                (build_items(parent, i as int) matches Err(er) ==> build_items(parent, 0)
                    == Err::<Seq<ArgV>, Error>(er)),
            decreases n - i,
        {
            proof {
                assert(node_items(parent)[i as int] == items@[i as int]@);
            }
            match Arg::from_node(&items[i]) {
                Ok(a) => {
                    proof {
                        let rest_now = build_items(parent, i as int);
                        let rest_next = build_items(parent, i as int + 1);
                        if rest_next is Ok {
                            assert(args_view(cargs@.push(a)) =~= args_view(cargs@) + seq![a@]);
                            assert(args_view(cargs@) + (seq![a@] + rest_next->Ok_0) =~= (
                            args_view(cargs@) + seq![a@]) + rest_next->Ok_0);
                        }
                    }
                    cargs.push(a);
                },
                Err(er) => {
                    return Err(er);
                },
            }
            i = i + 1;
        }
        proof {
            assert(build_items(parent, n as int) == Ok::<Seq<ArgV>, Error>(Seq::empty()));
            assert(args_view(cargs@) + Seq::<ArgV>::empty() =~= args_view(cargs@));
        }
        finish_expr_exec(cargs)
    }

    /// Builds an expression from a whole input tree, which must be an
    /// array.
    pub fn from_tree(tree: &Node) -> (r: Result<Expr, Error>)
        ensures
            r matches Ok(e) ==> build_top(tree@) == Ok::<ExprV, Error>(e@),
            r matches Err(er) ==> build_top(tree@) == Err::<ExprV, Error>(er),
    {
        match tree {
            Node::Array(items) => {
                proof {
                    assert(tree@->Array_0 =~= nodes_view(items@));
                }
                Expr::build_from_nodes(items)
            },
            _ => Err(Error::ExprIsNotArrayError),
        }
    }

    /// Builds an expression from a JSON value, which must be an array.
    pub fn new(val: serde_json::Value) -> (r: Result<Expr, Error>)
        ensures
            r matches Ok(e) ==> build_top(json_tree(val)) == Ok::<ExprV, Error>(e@),
            r matches Err(er) ==> build_top(json_tree(val)) == Err::<ExprV, Error>(er),
    {
        let node = node_from_json(&val);
        Expr::from_tree(&node)
    }

    /// Builds an expression from a vector of JSON values, the already
    /// unwrapped elements of an expression array.
    #[verifier::loop_isolation(false)]
    pub fn from_vec(val: Vec<serde_json::Value>) -> (r: Result<Expr, Error>)
        ensures
            r matches Ok(e) ==> build_list(val@.map_values(|v| json_tree(v))) == Ok::<
                ExprV,
                Error,
            >(e@),
            r matches Err(er) ==> build_list(val@.map_values(|v| json_tree(v))) == Err::<
                ExprV,
                Error,
            >(er),
    {
        let mut nodes: Vec<Node> = Vec::new();
        let n = val.len();
        let mut i: usize = 0;
        while i < n
            invariant
                0 <= i <= n,
                nodes@.len() == i,
                forall|k: int| 0 <= k < i ==> (#[trigger] nodes@[k])@ == json_tree(val@[k]),
            decreases n - i,
        {
            let nd = node_from_json(&val[i]);
            nodes.push(nd);
            i = i + 1;
        }
        let r = Expr::build_from_nodes(&nodes);
        proof {
            assert(nodes_view(nodes@) =~= val@.map_values(|v| json_tree(v)));
        }
        r
    }
}

// ---------------------------------------------------------------------------
// executable evaluation

impl Expr {
    /// Evaluates the expression against a JSON object context.
    #[verifier::loop_isolation(false)]
    pub fn matches_json_dict(
        &self,
        context: &serde_json::Map<String, serde_json::Value>,
    ) -> (r: Result<Arg, Error>)
        ensures
            r matches Ok(a) ==> eval_expr(self@, json_dict_view(*context)) == Ok::<ArgV, Error>(
                a@,
            ),
            r matches Err(e) ==> eval_expr(self@, json_dict_view(*context)) == Err::<ArgV, Error>(
                e,
            ),
        decreases self,
    {
        let ghost ctx = json_dict_view(*context);
        let ghost ev = self@;
        let mut ra: Vec<Arg> = Vec::new();
        let n = self.args.len();
        let mut i: usize = 0;
        while i < n
            invariant
                0 <= i <= n,
                ra@.len() == i,
                (resolve_args_from(ev, ctx, i as int) matches Ok(rest) ==> resolve_args_from(
                    ev,
                    ctx,
                    0,
                ) == Ok::<Seq<ArgV>, Error>(args_view(ra@) + rest)),
                (resolve_args_from(ev, ctx, i as int) matches Err(er) ==> resolve_args_from(
                    ev,
                    ctx,
                    0,
                ) == Err::<Seq<ArgV>, Error>(er)),
            decreases n - i,
        {
            proof {
                assert(ev.args[i as int] == arg_view(self.args@[i as int]));
            }
            let resolved: Result<Arg, Error> = match &self.args[i] {
                Arg::Expr(sub) => {
                    proof {
                        assert(decreases_to!(*self => self.args));
                        assert(decreases_to!(self.args => self.args@));
                        assert(decreases_to!(self.args@ => self.args@[i as int]));
                    }
                    sub.matches_json_dict(context)
                },
                other => Ok(other.duplicate()),
            };
            match resolved {
                Ok(a) => {
                    proof {
                        let rest_next = resolve_args_from(ev, ctx, i as int + 1);
                        if rest_next is Ok {
                            assert(args_view(ra@.push(a)) =~= args_view(ra@) + seq![a@]);
                            assert(args_view(ra@) + (seq![a@] + rest_next->Ok_0) =~= (args_view(
                                ra@,
                            ) + seq![a@]) + rest_next->Ok_0);
                        }
                    }
                    ra.push(a);
                },
                Err(er) => {
                    return Err(er);
                },
            }
            i = i + 1;
        }
        proof {
            assert(resolve_args_from(ev, ctx, n as int) == Ok::<Seq<ArgV>, Error>(Seq::empty()));
            assert(args_view(ra@) + Seq::<ArgV>::empty() =~= args_view(ra@));
        }
        if str_eq_str(self.op.name.as_str(), "var") {
            Arg::from_context_var(&ra, context)
        } else {
            let looked = Arg::from_context_var(&ra, context);
            match looked {
                Ok(v) => {
                    proof {
                        assert(eval_var(args_view(ra@), ctx) == Ok::<ArgV, Error>(v@));
                        assert(args_view(ra@)[0] is String);
                    }
                    let ghost before = args_view(ra@);
                    ra.set(0, v);
                    proof {
                        assert(args_view(ra@) =~= implicit_resolve(before, ctx));
                    }
                },
                Err(_) => {
                    proof {
                        assert(args_view(ra@) == implicit_resolve(args_view(ra@), ctx));
                    }
                },
            }
            crate::op::apply(self.op.kind, ra)
        }
    }

    /// Evaluates the expression against a JSON context value, which must be
    /// an object.
    pub fn matches_json(&self, context: &serde_json::Value) -> (r: Result<Arg, Error>)
        ensures
            json_fields(*context) is None ==> (r matches Err(e) && e is ContextNotDictError),
            json_fields(*context) matches Some(ctx) ==> ((r matches Ok(a) ==> eval_expr(
                self@,
                ctx,
            ) == Ok::<ArgV, Error>(a@)) && (r matches Err(e) ==> eval_expr(self@, ctx) == Err::<
                ArgV,
                Error,
            >(e))),
    {
        match value_as_object(context) {
            None => Err(Error::ContextNotDictError),
            Some(m) => self.matches_json_dict(m),
        }
    }
}

// ---------------------------------------------------------------------------
// the rule facade

impl Rule {
    /// Builds a rule from a JSON value, which must be an expression array.
    pub fn new(val: serde_json::Value) -> (r: Result<Rule, Error>)
        ensures
            r matches Ok(rl) ==> build_top(json_tree(val)) == Ok::<ExprV, Error>(rl@),
            r matches Err(er) ==> build_top(json_tree(val)) == Err::<ExprV, Error>(er),
    {
        match Expr::new(val) {
            Ok(e) => Ok(Rule { expr: e }),
            Err(er) => Err(er),
        }
    }

    /// Builds a rule from an input tree, which must be an expression array.
    pub fn from_tree(tree: &Node) -> (r: Result<Rule, Error>)
        ensures
            r matches Ok(rl) ==> build_top(tree@) == Ok::<ExprV, Error>(rl@),
            r matches Err(er) ==> build_top(tree@) == Err::<ExprV, Error>(er),
    {
        match Expr::from_tree(tree) {
            Ok(e) => Ok(Rule { expr: e }),
            Err(er) => Err(er),
        }
    }

    /// Builds a rule from a JSON text.
    pub fn from_str(s: &str) -> (r: Result<Rule, Error>)
        ensures
            parsed_doc(s@) is None ==> (r matches Err(e) && e is JsonError),
            parsed_doc(s@) matches Some(nv) ==> ((r matches Ok(rl) ==> build_top(nv) == Ok::<
                ExprV,
                Error,
            >(rl@)) && (r matches Err(er) ==> build_top(nv) == Err::<ExprV, Error>(er))),
    {
        match parse_tree(s) {
            Err(msg) => Err(Error::JsonError(msg)),
            Ok(n) => Rule::from_tree(&n),
        }
    }

    /// Evaluates the rule against a JSON context value: the context must be
    /// an object, and the verdict must come out boolean.
    pub fn matches(&self, context: &serde_json::Value) -> (r: Result<bool, Error>)
        ensures
            r == rule_eval(self@, *context),
    {
        match self.expr.matches_json(context) {
            Err(e) => Err(e),
            Ok(a) => match a.as_bool() {
                Some(b) => Ok(b),
                None => Err(Error::FinalResultNotBoolError),
            },
        }
    }
}

} // verus!

