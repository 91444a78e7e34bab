//! What evaluation means: functions from an environment and a syntax node
//! to the value it yields and the environment it leaves.
//!
//! Every function takes the number of calls that may still be entered,
//! `depth`; a call of a closure evaluates the body with one less.

use crate::eval::binary::binary;
use crate::eval::env::EnvModel;
use crate::eval::error::ErrorModel;
use crate::eval::value::builtin::{builtin_env, builtin_result};
use crate::eval::value::closure::new_closure;
use crate::eval::value::{bind, key_of, lookup, ClosureModel, KeyModel, ValueModel};
use crate::lex::lexer::State;
use crate::parse::ast::{BlockModel, ExprModel, IdentModel, NodeModel, StmtModel, UnaryOp};
use crate::parse::grammar;
use vstd::prelude::*;
use vstd::wrapping::i32_specs::wrapping_sub;

verus! {

/// How an evaluation step ends: it falls through with what it made, or it
/// returns a value from the function that is running.
pub enum Flow<T> {
    Continue(T),
    Return(ValueModel),
}

/// What an evaluation step yields, and the environment it leaves.
pub struct Outcome<T> {
    pub env: EnvModel,
    pub result: Result<Flow<T>, ErrorModel>,
}

/// The step fell through with `value`.
pub open spec fn done<T>(env: EnvModel, value: T) -> Outcome<T> {
    Outcome { env, result: Ok(Flow::Continue(value)) }
}

/// The step returns `value` from the function that is running.
pub open spec fn returned<T>(env: EnvModel, value: ValueModel) -> Outcome<T> {
    Outcome { env, result: Ok(Flow::Return(value)) }
}

/// The step failed.
pub open spec fn failed<T>(env: EnvModel, error: ErrorModel) -> Outcome<T> {
    Outcome { env, result: Err(error) }
}

/// The step fell through with `result`, or failed with it.
pub open spec fn settled(env: EnvModel, result: Result<ValueModel, ErrorModel>) -> Outcome<
    ValueModel,
> {
    match result {
        Ok(v) => done(env, v),
        Err(e) => failed(env, e),
    }
}

/// `op value`: `-` on an integer, which wraps around at 32 bits, and `!`
/// on a boolean.
pub open spec fn unary(pos: usize, op: UnaryOp, value: ValueModel) -> Result<
    ValueModel,
    ErrorModel,
> {
    match (op, value) {
        (UnaryOp::Neg, ValueModel::Int(x)) => Ok(ValueModel::Int(wrapping_sub(0, x))),
        (UnaryOp::Not, ValueModel::Bool(x)) => Ok(ValueModel::Bool(!x)),
        _ => Err(ErrorModel::Unary { pos, op, operand: value }),
    }
}

/// `base[subscript]`: the element of a sequence at an index within it, or
/// the value of a map for a key that it holds.
pub open spec fn index(pos: usize, base: ValueModel, subscript: ValueModel) -> Result<
    ValueModel,
    ErrorModel,
> {
    let undefined = Err(ErrorModel::Index { pos, base, subscript });
    match base {
        ValueModel::Sequence(s) => match subscript {
            ValueModel::Int(i) => if 0 <= i < s.len() {
                Ok(s[i as int])
            } else {
                undefined
            },
            _ => undefined,
        },
        ValueModel::Mapping(m) => match key_of(subscript) {
            Some(key) => match lookup(m, key) {
                Some(v) => Ok(v),
                None => undefined,
            },
            None => undefined,
        },
        _ => undefined,
    }
}

/// The place of the first of `idents` at or after `from` with the symbol
/// `sym`.
pub open spec fn position(idents: Seq<IdentModel>, sym: Seq<char>, from: int) -> Option<int>
    decreases idents.len() - from,
{
    if 0 <= from < idents.len() {
        if idents[from].sym == sym {
            Some(from)
        } else {
            position(idents, sym, from + 1)
        }
    } else {
        None
    }
}

/// The value that `let ident = value` binds: a closure that has no name
/// yet and could not resolve the symbol of `ident` when it was made takes
/// it as the name it calls itself by; every other value is bound as it is.
pub open spec fn named(value: ValueModel, ident: IdentModel) -> ValueModel {
    match value {
        ValueModel::Closure(c) => match position(c.undefined, ident.sym, 0) {
            Some(i) => if c.recursive is None {
                ValueModel::Closure(
                    ClosureModel {
                        undefined: c.undefined.remove(i),
                        recursive: Some(c.undefined[i]),
                        ..c
                    },
                )
            } else {
                value
            },
            None => value,
        },
        _ => value,
    }
}

/// `env` with the captured bindings from `from` on bound in the innermost
/// scope.
pub open spec fn bind_captured(
    env: EnvModel,
    captured: Seq<(IdentModel, ValueModel)>,
    from: int,
) -> EnvModel
    decreases captured.len() - from,
{
    if 0 <= from < captured.len() {
        bind_captured(env.set(captured[from].0.sym, captured[from].1), captured, from + 1)
    } else {
        env
    }
}

/// `env` with the parameters from `from` on bound to the arguments in the
/// innermost scope.
pub open spec fn bind_params(
    env: EnvModel,
    params: Seq<IdentModel>,
    args: Seq<ValueModel>,
    from: int,
) -> EnvModel
    decreases params.len() - from,
{
    if 0 <= from < params.len() {
        bind_params(env.set(params[from].sym, args[from]), params, args, from + 1)
    } else {
        env
    }
}

/// The scope in which the body of `closure` runs on `args`: a new scope
/// that binds the closure's own name to the closure, then what it
/// captured, then its parameters.
pub open spec fn call_frame(env: EnvModel, closure: ClosureModel, args: Seq<ValueModel>) -> EnvModel {
    let opened = env.push_frame();
    let own = match closure.recursive {
        Some(name) => opened.set(name.sym, ValueModel::Closure(closure)),
        None => opened,
    };
    bind_params(bind_captured(own, closure.captured, 0), closure.f.parameters, args, 0)
}

/// What a call yields, and the environment it leaves.
pub struct Applied {
    pub env: EnvModel,
    pub result: Result<ValueModel, ErrorModel>,
}

/// The call of `target` on `args` at `pos`. A closure takes exactly as
/// many arguments as it has parameters; its body runs in its call frame,
/// which is closed again whatever the body yields, and a `return` in the
/// body ends the call and nothing more. A builtin is handed the arguments
/// as they are. Nothing else can be called.
#[verifier::opaque]
pub open spec fn apply(
    env: EnvModel,
    pos: usize,
    target: ValueModel,
    args: Seq<ValueModel>,
    depth: nat,
) -> Applied
    decreases 2 * depth, target, 0nat,
{
    match target {
        ValueModel::Closure(closure) => if args.len() != closure.f.parameters.len() {
            Applied {
                env,
                result: Err(
                    ErrorModel::ArgCount {
                        pos,
                        supplied: args.len() as usize,
                        expected: closure.f.parameters.len() as usize,
                    },
                ),
            }
        } else if depth == 0 {
            Applied { env, result: Err(ErrorModel::CallDepth { pos, limit: env.call_depth }) }
        } else {
            let body = eval_block(
                call_frame(env, closure, args),
                closure.f.body,
                (depth - 1) as nat,
            );
            Applied {
                env: body.env.pop_frame(),
                result: match body.result {
                    Ok(Flow::Continue(v)) => Ok(v),
                    Ok(Flow::Return(v)) => Ok(v),
                    Err(e) => Err(e),
                },
            }
        },
        ValueModel::Builtin(f) => Applied {
            env: builtin_env(env, f, args),
            result: builtin_result(f, pos, args),
        },
        _ => Applied { env, result: Err(ErrorModel::Call { pos, target, args }) },
    }
}

/// Evaluates a node: an expression, or a statement, which yields the unit
/// value where it falls through.
#[verifier::opaque]
pub open spec fn eval_node(env: EnvModel, node: NodeModel, depth: nat) -> Outcome<ValueModel>
    decreases 2 * depth + 1, node, 1nat,
{
    match node {
        NodeModel::Expr(e) => eval_expr(env, e, depth),
        NodeModel::Stmt(s) => {
            let o = eval_stmt(env, s, depth);
            match o.result {
                Ok(Flow::Continue(_)) => done(o.env, ValueModel::Unit),
                Ok(Flow::Return(v)) => returned(o.env, v),
                Err(e) => failed(o.env, e),
            }
        },
    }
}

/// Evaluates a statement. `let` binds the value of its expression in the
/// innermost scope. `return` with an expression returns its value;
/// without one it does nothing.
#[verifier::opaque]
pub open spec fn eval_stmt(env: EnvModel, stmt: StmtModel, depth: nat) -> Outcome<()>
    decreases 2 * depth + 1, stmt, 1nat,
{
    match stmt {
        StmtModel::Let { ident, value, .. } => {
            let o = eval_expr(env, value, depth);
            match o.result {
                Ok(Flow::Continue(v)) => done(o.env.set(ident.sym, named(v, ident)), ()),
                Ok(Flow::Return(v)) => returned(o.env, v),
                Err(e) => failed(o.env, e),
            }
        },
        StmtModel::Return { value, .. } => match value {
            None => done(env, ()),
            Some(e) => {
                let o = eval_expr(env, e, depth);
                match o.result {
                    Ok(Flow::Continue(v)) => returned(o.env, v),
                    Ok(Flow::Return(v)) => returned(o.env, v),
                    Err(e) => failed(o.env, e),
                }
            },
        },
    }
}

/// Evaluates an expression. Operands, elements, entries and arguments are
/// evaluated from left to right; the first one that fails or returns ends
/// the evaluation of the expression.
#[verifier::opaque]
pub open spec fn eval_expr(env: EnvModel, expr: ExprModel, depth: nat) -> Outcome<ValueModel>
    decreases 2 * depth + 1, expr, 1nat,
{
    match expr {
        ExprModel::Int { value, .. } => done(env, ValueModel::Int(value)),
        ExprModel::Bool { value, .. } => done(env, ValueModel::Bool(value)),
        ExprModel::Str { value, .. } => done(env, ValueModel::Str(value)),
        ExprModel::Ident(ident) => match env.get(ident.sym) {
            Some(v) => done(env, v),
            None => failed(env, ErrorModel::Undefined(ident)),
        },
        ExprModel::Sequence { elements, .. } => {
            let o = eval_exprs(env, elements, 0, Seq::empty(), depth);
            match o.result {
                Ok(Flow::Continue(values)) => done(o.env, ValueModel::Sequence(values)),
                Ok(Flow::Return(v)) => returned(o.env, v),
                Err(e) => failed(o.env, e),
            }
        },
        ExprModel::Unary { pos, op, value } => {
            let o = eval_expr(env, *value, depth);
            match o.result {
                Ok(Flow::Continue(v)) => settled(o.env, unary(pos, op, v)),
                _ => o,
            }
        },
        ExprModel::Binary { pos, left, op, right } => {
            let l = eval_expr(env, *left, depth);
            match l.result {
                Ok(Flow::Continue(lv)) => {
                    let r = eval_expr(l.env, *right, depth);
                    match r.result {
                        Ok(Flow::Continue(rv)) => settled(r.env, binary(pos, lv, op, rv)),
                        _ => r,
                    }
                },
                _ => l,
            }
        },
        ExprModel::Closure(f) => done(
            env.after_fresh_id(),
            ValueModel::Closure(new_closure(f, env)),
        ),
        ExprModel::Mapping { entries, .. } => {
            let o = eval_entries(env, entries, 0, Seq::empty(), depth);
            match o.result {
                Ok(Flow::Continue(m)) => done(o.env, ValueModel::Mapping(m)),
                Ok(Flow::Return(v)) => returned(o.env, v),
                Err(e) => failed(o.env, e),
            }
        },
        ExprModel::Call { .. } => eval_call(env, expr, depth),
        ExprModel::Index { .. } => eval_index(env, expr, depth),
        ExprModel::If { .. } => eval_if(env, expr, depth),
    }
}

/// Evaluates the expressions of `es` from `from` on, `acc` being the
/// values of those before.
#[verifier::opaque]
pub open spec fn eval_exprs(
    env: EnvModel,
    es: Seq<ExprModel>,
    from: int,
    acc: Seq<ValueModel>,
    depth: nat,
) -> Outcome<Seq<ValueModel>>
    decreases 2 * depth + 1, es, es.len() - from,
{
    if 0 <= from < es.len() {
        let o = eval_expr(env, es[from], depth);
        match o.result {
            Ok(Flow::Continue(v)) => eval_exprs(o.env, es, from + 1, acc.push(v), depth),
            Ok(Flow::Return(v)) => returned(o.env, v),
            Err(e) => failed(o.env, e),
        }
    } else {
        done(env, acc)
    }
}

/// Evaluates the entries of a map literal from `from` on, `acc` being the
/// map of those before: the key, which must make a map key, then the
/// value, which is bound to the key.
#[verifier::opaque]
pub open spec fn eval_entries(
    env: EnvModel,
    es: Seq<(ExprModel, ExprModel)>,
    from: int,
    acc: Seq<(KeyModel, ValueModel)>,
    depth: nat,
) -> Outcome<Seq<(KeyModel, ValueModel)>>
    decreases 2 * depth + 1, es, es.len() - from,
{
    if 0 <= from < es.len() {
        let k = eval_expr(env, es[from].0, depth);
        match k.result {
            Ok(Flow::Continue(kv)) => match key_of(kv) {
                Some(key) => {
                    let v = eval_expr(k.env, es[from].1, depth);
                    match v.result {
                        Ok(Flow::Continue(vv)) => eval_entries(
                            v.env,
                            es,
                            from + 1,
                            bind(acc, key, vv),
                            depth,
                        ),
                        Ok(Flow::Return(r)) => returned(v.env, r),
                        Err(e) => failed(v.env, e),
                    }
                },
                None => failed(
                    k.env,
                    ErrorModel::ArgType {
                        pos: es[from].0.pos(),
                        supplied: kv,
                        expected: "int | bool | str as map key"@,
                    },
                ),
            },
            Ok(Flow::Return(r)) => returned(k.env, r),
            Err(e) => failed(k.env, e),
        }
    } else {
        done(env, acc)
    }
}

/// Evaluates the call `expr`: the target, the arguments, and then the
/// call itself.
#[verifier::opaque]
pub open spec fn eval_call(env: EnvModel, expr: ExprModel, depth: nat) -> Outcome<ValueModel>
    decreases 2 * depth + 1, expr, 0nat,
{
    match expr {
        ExprModel::Call { pos, target, args } => {
            let t = eval_expr(env, *target, depth);
            match t.result {
                Ok(Flow::Continue(f)) => {
                    let a = eval_exprs(t.env, args, 0, Seq::empty(), depth);
                    match a.result {
                        Ok(Flow::Continue(values)) => {
                            let applied = apply(a.env, pos, f, values, depth);
                            settled(applied.env, applied.result)
                        },
                        Ok(Flow::Return(v)) => returned(a.env, v),
                        Err(e) => failed(a.env, e),
                    }
                },
                _ => t,
            }
        },
        _ => done(env, ValueModel::Unit),
    }
}

/// Evaluates the nodes of a block in the scope that the block stands in;
/// the block yields what its last node yields, the unit value where it
/// has none.
#[verifier::opaque]
pub open spec fn eval_block(env: EnvModel, block: BlockModel, depth: nat) -> Outcome<ValueModel>
    decreases 2 * depth + 1, block, 0nat,
{
    eval_nodes(env, block.nodes, 0, ValueModel::Unit, depth)
}

/// Evaluates the nodes of `nodes` from `from` on, `last` being what the
/// node before yielded.
#[verifier::opaque]
pub open spec fn eval_nodes(
    env: EnvModel,
    nodes: Seq<NodeModel>,
    from: int,
    last: ValueModel,
    depth: nat,
) -> Outcome<ValueModel>
    decreases 2 * depth + 1, nodes, nodes.len() - from,
{
    if 0 <= from < nodes.len() {
        let o = eval_node(env, nodes[from], depth);
        match o.result {
            Ok(Flow::Continue(v)) => eval_nodes(o.env, nodes, from + 1, v, depth),
            _ => o,
        }
    } else {
        done(env, last)
    }
}

/// Evaluates the conditional `expr`: the consequence where the condition
/// is `true`; otherwise, whatever the condition is, the alternative, or
/// the unit value where there is none.
#[verifier::opaque]
pub open spec fn eval_if(env: EnvModel, expr: ExprModel, depth: nat) -> Outcome<ValueModel>
    decreases 2 * depth + 1, expr, 0nat,
{
    match expr {
        ExprModel::If { condition, consequence, alternative, .. } => {
            let c = eval_expr(env, *condition, depth);
            match c.result {
                Ok(Flow::Continue(v)) => if v == ValueModel::Bool(true) {
                    eval_block(c.env, consequence, depth)
                } else {
                    match alternative {
                        Some(block) => eval_block(c.env, block, depth),
                        None => done(c.env, ValueModel::Unit),
                    }
                },
                _ => c,
            }
        },
        _ => done(env, ValueModel::Unit),
    }
}

/// Evaluates the subscript expression `expr`: the base, the subscript, and
/// then the lookup.
#[verifier::opaque]
pub open spec fn eval_index(env: EnvModel, expr: ExprModel, depth: nat) -> Outcome<ValueModel>
    decreases 2 * depth + 1, expr, 0nat,
{
    match expr {
        ExprModel::Index { pos, base, subscript } => {
            let b = eval_expr(env, *base, depth);
            match b.result {
                Ok(Flow::Continue(bv)) => {
                    let s = eval_expr(b.env, *subscript, depth);
                    match s.result {
                        Ok(Flow::Continue(sv)) => settled(s.env, index(pos, bv, sv)),
                        _ => s,
                    }
                },
                _ => b,
            }
        },
        _ => done(env, ValueModel::Unit),
    }
}


/// What running a source text yields, and the environment it leaves.
pub struct Ran {
    pub env: EnvModel,
    pub result: Result<ValueModel, ErrorModel>,
}

/// Runs the nodes of `input` that the parser finds from `st` on, one after
/// the other, `last` being what the node before yielded. The first node
/// that cannot be parsed or evaluated ends the run with its error; a node
/// that returns ends it with the value returned; the end of the input
/// ends it with what the last node yielded.
pub open spec fn run(input: Seq<u8>, st: State, env: EnvModel, last: ValueModel) -> Ran
    decreases st.left(input),
{
    let parsed = grammar::node(input, st);
    match parsed.value {
        Err(e) => Ran { env, result: Err(ErrorModel::Parse(e)) },
        Ok(None) => Ran { env, result: Ok(last) },
        Ok(Some(node)) => {
            let o = eval_node(env, node, env.call_depth as nat);
            match o.result {
                Err(e) => Ran { env: o.env, result: Err(e) },
                Ok(Flow::Return(v)) => Ran { env: o.env, result: Ok(v) },
                Ok(Flow::Continue(v)) => if parsed.state.left(input) < st.left(input) {
                    run(input, parsed.state, o.env, v)
                } else {
                    Ran { env: o.env, result: Ok(v) }
                },
            }
        },
    }
}

/// Runs the source text `code` in `env`: the value of its last node, the
/// unit value where it has none.
pub open spec fn entry(env: EnvModel, code: Seq<u8>) -> Ran {
    run(code, State { cursor: 0, peeked: None }, env, ValueModel::Unit)
}

} // verus!
