//! Evaluation: from syntax nodes to values.

pub mod value;
pub mod render;
pub mod env;
pub mod error;
pub mod binary;
pub mod semantics;
pub mod laws;

use crate::eval::binary::value_result;
use crate::eval::env::Env;
use crate::eval::error::{Error, ErrorModel};
use crate::eval::semantics::{Applied, Flow, Outcome};
use crate::eval::value::{
    distinct_keys,
    lemma_values_model_push,
    mapping_get,
    mapping_insert,
    mapping_model,
    to_key,
    values_model,
    Closure,
    Key,
    Value,
    ValueModel,
};
use crate::lex::lexer::Lexer;
use crate::parse::ast;
use crate::parse::ast::{entries_model, exprs_model, idents_model, nodes_model};
use crate::parse::parser::Parser;
use crate::support::share;
use std::rc::Rc;
use vstd::prelude::*;

verus! {

/// Runs the source text `code` in `env`.
pub fn entry(env: &mut Env, code: &[u8]) -> (r: Result<Value, Error>)
    requires
        old(env).wf(),
    ensures
        final(env).wf(),
        semantics::entry(old(env).model(), code@) == (semantics::Ran {
            env: final(env).model(),
            result: value_result(r),
        }),
        final(env).model().frames.len() == old(env).model().frames.len(),
{
    let lexer = Lexer::new(code);
    let mut parser = Parser::new(lexer);
    let ghost target = semantics::entry(env.model(), code@);
    let mut output = Value::Unit;
    loop
        invariant
            env.wf(),
            parser.source() == code@,
            env.model().frames.len() == old(env).model().frames.len(),
            semantics::run(code@, parser.state(), env.model(), output.model()) == target,
            target == semantics::entry(old(env).model(), code@),
        decreases parser.left(),
    {
        let depth = env.call_depth;
        match parser.next() {
            None => {
                return Ok(output);
            },
            Some(Err(e)) => {
                return Err(Error::Parse(e));
            },
            Some(Ok(node)) => match eval_node(env, &node, depth) {
                Ok(Eval::Continue(x)) => {
                    output = x;
                },
                Ok(Eval::Return(x)) => {
                    return Ok(x);
                },
                Err(e) => {
                    return Err(e);
                },
            },
        }
    }
}

/// How an evaluation step ends: it falls through with what it made, or it
/// returns a value from the function that is running.
#[derive(Debug)]
pub enum Eval<T> {
    Continue(T),
    Return(Value),
}

/// The model of how a step that makes a value ended.
pub open spec fn flow_value(r: Result<Eval<Value>, Error>) -> Result<Flow<ValueModel>, ErrorModel> {
    match r {
        Ok(Eval::Continue(v)) => Ok(Flow::Continue(v.model())),
        Ok(Eval::Return(v)) => Ok(Flow::Return(v.model())),
        Err(e) => Err(e.model()),
    }
}

/// The model of how a step that makes nothing ended.
pub open spec fn flow_unit(r: Result<Eval<()>, Error>) -> Result<Flow<()>, ErrorModel> {
    match r {
        Ok(Eval::Continue(_)) => Ok(Flow::Continue(())),
        Ok(Eval::Return(v)) => Ok(Flow::Return(v.model())),
        Err(e) => Err(e.model()),
    }
}

/// The model of how a step that makes a sequence of values ended.
pub open spec fn flow_values(r: Result<Eval<Vec<Value>>, Error>) -> Result<
    Flow<Seq<ValueModel>>,
    ErrorModel,
> {
    match r {
        Ok(Eval::Continue(v)) => Ok(Flow::Continue(values_model(v@))),
        Ok(Eval::Return(v)) => Ok(Flow::Return(v.model())),
        Err(e) => Err(e.model()),
    }
}

/// The model of how a step that makes the entries of a map ended.
pub open spec fn flow_entries(r: Result<Eval<Vec<(Key, Value)>>, Error>) -> Result<
    Flow<Seq<(crate::eval::value::KeyModel, ValueModel)>>,
    ErrorModel,
> {
    match r {
        Ok(Eval::Continue(v)) => Ok(Flow::Continue(mapping_model(v@))),
        Ok(Eval::Return(v)) => Ok(Flow::Return(v.model())),
        Err(e) => Err(e.model()),
    }
}

/// `before` has become `after` by a step that the semantics describes in
/// `spec` and that ended as `result` says; the step left as many scopes
/// open as it found.
pub open spec fn steps<T>(
    before: Env,
    after: Env,
    spec: Outcome<T>,
    result: Result<Flow<T>, ErrorModel>,
) -> bool {
    &&& after.wf()
    &&& spec.env == after.model()
    &&& spec.result == result
    &&& after.model().frames.len() == before.model().frames.len()
}

/// Evaluates a node.
pub fn eval_node(env: &mut Env, node: &ast::Node, depth: usize) -> (r: Result<Eval<Value>, Error>)
    requires
        old(env).wf(),
    ensures
        steps(
            *old(env),
            *final(env),
            semantics::eval_node(old(env).model(), node.model(), depth as nat),
            flow_value(r),
        ),
    decreases 2 * depth + 1, node, 1nat,
{
    proof {
        reveal(semantics::eval_node);
        reveal(semantics::eval_expr);
        reveal(semantics::eval_stmt);
    }
    match node {
        ast::Node::Expr(expr) => eval_expr(env, expr, depth),
        ast::Node::Stmt(stmt) => match eval_stmt(env, stmt, depth) {
            Ok(Eval::Continue(_)) => Ok(Eval::Continue(Value::Unit)),
            Ok(Eval::Return(v)) => Ok(Eval::Return(v)),
            Err(e) => Err(e),
        },
    }
}

/// The place of the first of `idents` with the symbol of `ident`.
pub fn position(idents: &Vec<ast::Ident>, ident: &ast::Ident) -> (r: Option<usize>)
    ensures
        match r {
            Some(i) => semantics::position(idents_model(idents@), ident.sym@, 0) == Some(i as int)
                && i < idents.len(),
            None => semantics::position(idents_model(idents@), ident.sym@, 0) is None,
        },
{
    let mut i: usize = 0;
    while i < idents.len()
        invariant
            i <= idents.len(),
            semantics::position(idents_model(idents@), ident.sym@, i as int) == semantics::position(
                idents_model(idents@),
                ident.sym@,
                0,
            ),
        decreases idents.len() - i,
    {
        if crate::eval::value::same_text(&idents[i].sym, &ident.sym) {
            return Some(i);
        }
        i += 1;
    }
    None
}

/// The value that `let ident = value` binds.
pub fn name_closure(value: Value, ident: &ast::Ident) -> (r: Value)
    ensures
        r.model() == semantics::named(value.model(), ident.model()),
{
    match value {
        Value::Closure(closure) => {
            if closure.recursive.is_some() {
                return Value::Closure(closure);
            }
            match position(&closure.undefined, ident) {
                Some(i) => {
                    assert(closure.model().undefined == idents_model(closure.undefined@));
                    let mut record = match Rc::try_unwrap(closure) {
                        Ok(record) => record,
                        Err(shared) => shared.duplicate(),
                    };
                    let ghost before = record.undefined@;
                    let name = record.undefined.remove(i);
                    assert(idents_model(record.undefined@) =~= idents_model(before).remove(
                        i as int,
                    ));
                    record.recursive = Some(name);
                    Value::Closure(Rc::new(record))
                },
                None => Value::Closure(closure),
            }
        },
        other => other,
    }
}

/// Evaluates a statement.
pub fn eval_stmt(env: &mut Env, stmt: &ast::Stmt, depth: usize) -> (r: Result<Eval<()>, Error>)
    requires
        old(env).wf(),
    ensures
        steps(
            *old(env),
            *final(env),
            semantics::eval_stmt(old(env).model(), stmt.model(), depth as nat),
            flow_unit(r),
        ),
    decreases 2 * depth + 1, stmt, 1nat,
{
    proof {
        reveal(semantics::eval_stmt);
        reveal(semantics::eval_expr);
    }
    match stmt {
        ast::Stmt::Let(let_) => {
            let value = match eval_expr(env, &let_.value, depth) {
                Ok(Eval::Continue(x)) => x,
                Ok(Eval::Return(b)) => {
                    return Ok(Eval::Return(b));
                },
                Err(err) => {
                    return Err(err);
                },
            };
            let value = name_closure(value, &let_.ident);
            env.set(let_.ident.clone(), value);
            Ok(Eval::Continue(()))
        },
        ast::Stmt::Return(return_) => match &return_.value {
            None => Ok(Eval::Continue(())),
            Some(expr) => match eval_expr(env, expr, depth) {
                Ok(Eval::Continue(v)) => Ok(Eval::Return(v)),
                Ok(Eval::Return(v)) => Ok(Eval::Return(v)),
                Err(e) => Err(e),
            },
        },
    }
}

/// Evaluates an expression.
pub fn eval_expr(env: &mut Env, expr: &ast::Expr, depth: usize) -> (r: Result<Eval<Value>, Error>)
    requires
        old(env).wf(),
    ensures
        steps(
            *old(env),
            *final(env),
            semantics::eval_expr(old(env).model(), expr.model(), depth as nat),
            flow_value(r),
        ),
    decreases 2 * depth + 1, expr, 1nat,
{
    proof {
        reveal(semantics::eval_expr);
        reveal(semantics::eval_exprs);
        reveal(semantics::eval_entries);
        reveal(semantics::eval_call);
        reveal(semantics::eval_index);
        reveal(semantics::eval_if);
    }
    match expr {
        ast::Expr::Int(expr) => Ok(Eval::Continue(Value::Int(expr.value))),
        ast::Expr::Bool(expr) => Ok(Eval::Continue(Value::Bool(expr.value))),
        ast::Expr::Str(expr) => Ok(Eval::Continue(Value::Str(share(&expr.value)))),
        ast::Expr::Ident(ident) => match env.get(&ident.sym) {
            Some(v) => Ok(Eval::Continue(v.clone())),
            None => Err(Error::Undefined(ident.clone())),
        },
        ast::Expr::Sequence(seq) => match eval_exprs(env, &seq.elements, depth) {
            Ok(Eval::Continue(elements)) => Ok(Eval::Continue(Value::Sequence(Rc::new(elements)))),
            Ok(Eval::Return(v)) => Ok(Eval::Return(v)),
            Err(e) => Err(e),
        },
        ast::Expr::Unary(unary) => {
            let value = match eval_expr(env, &unary.value, depth) {
                Ok(Eval::Continue(x)) => x,
                Ok(Eval::Return(b)) => {
                    return Ok(Eval::Return(b));
                },
                Err(err) => {
                    return Err(err);
                },
            };
            match eval_unary(unary.pos, unary.op, value) {
                Ok(v) => Ok(Eval::Continue(v)),
                Err(e) => Err(e),
            }
        },
        ast::Expr::Binary(binary) => {
            let left = match eval_expr(env, &binary.left, depth) {
                Ok(Eval::Continue(x)) => x,
                Ok(Eval::Return(b)) => {
                    return Ok(Eval::Return(b));
                },
                Err(err) => {
                    return Err(err);
                },
            };
            let right = match eval_expr(env, &binary.right, depth) {
                Ok(Eval::Continue(x)) => x,
                Ok(Eval::Return(b)) => {
                    return Ok(Eval::Return(b));
                },
                Err(err) => {
                    return Err(err);
                },
            };
            match binary::eval(binary.pos, left, binary.op, right) {
                Ok(v) => Ok(Eval::Continue(v)),
                Err(e) => Err(e),
            }
        },
        ast::Expr::Closure(closure) => {
            let record = Closure::new(share(closure), env);
            Ok(Eval::Continue(Value::Closure(Rc::new(record))))
        },
        ast::Expr::Mapping(map) => match eval_entries(env, &map.entries, depth) {
            Ok(Eval::Continue(entries)) => Ok(Eval::Continue(Value::Mapping(Rc::new(entries)))),
            Ok(Eval::Return(v)) => Ok(Eval::Return(v)),
            Err(e) => Err(e),
        },
        ast::Expr::Call(call) => eval_call(env, call, depth),
        ast::Expr::Index(index) => eval_index(env, index, depth),
        ast::Expr::If(if_) => eval_if(env, if_, depth),
    }
}

/// Evaluates `op value`.
pub fn eval_unary(pos: usize, op: ast::UnaryOp, value: Value) -> (r: Result<Value, Error>)
    ensures
        value_result(r) == semantics::unary(pos, op, value.model()),
{
    match op {
        ast::UnaryOp::Neg => match value {
            Value::Int(x) => Ok(Value::Int(0i32.wrapping_sub(x))),
            other => Err(Error::Unary { pos, op, operand: other }),
        },
        ast::UnaryOp::Not => match value {
            Value::Bool(x) => Ok(Value::Bool(!x)),
            other => Err(Error::Unary { pos, op, operand: other }),
        },
    }
}

/// Evaluates expressions from left to right.
pub fn eval_exprs(env: &mut Env, exprs: &Vec<ast::Expr>, depth: usize) -> (r: Result<
    Eval<Vec<Value>>,
    Error,
>)
    requires
        old(env).wf(),
    ensures
        steps(
            *old(env),
            *final(env),
            semantics::eval_exprs(
                old(env).model(),
                exprs_model(exprs@),
                0,
                Seq::empty(),
                depth as nat,
            ),
            flow_values(r),
        ),
    decreases 2 * depth + 1, exprs, 0nat,
{
    let ghost es = exprs_model(exprs@);
    let ghost target = semantics::eval_exprs(env.model(), es, 0, Seq::empty(), depth as nat);
    let mut values: Vec<Value> = Vec::new();
    assert(values_model(values@) =~= Seq::empty());
    let mut i: usize = 0;
    while i < exprs.len()
        invariant
            i <= exprs.len(),
            es == exprs_model(exprs@),
            env.wf(),
            env.model().frames.len() == old(env).model().frames.len(),
            semantics::eval_exprs(env.model(), es, i as int, values_model(values@), depth as nat)
                == target,
            target == semantics::eval_exprs(
                old(env).model(),
                exprs_model(exprs@),
                0,
                Seq::empty(),
                depth as nat,
            ),
        decreases exprs.len() - i,
    {
        proof {
            reveal(semantics::eval_exprs);
            reveal(semantics::eval_expr);
        }
        assert(es[i as int] == exprs@[i as int].model());
        let value = match eval_expr(env, &exprs[i], depth) {
            Ok(Eval::Continue(x)) => x,
            Ok(Eval::Return(b)) => {
                return Ok(Eval::Return(b));
            },
            Err(err) => {
                return Err(err);
            },
        };
        proof {
            lemma_values_model_push(values@, value);
        }
        values.push(value);
        i += 1;
    }
    proof {
        reveal(semantics::eval_exprs);
        reveal(semantics::eval_expr);
    }
    Ok(Eval::Continue(values))
}

/// Evaluates the entries of a map literal from left to right.
pub fn eval_entries(env: &mut Env, entries: &Vec<(ast::Expr, ast::Expr)>, depth: usize) -> (r:
    Result<Eval<Vec<(Key, Value)>>, Error>)
    requires
        old(env).wf(),
    ensures
        steps(
            *old(env),
            *final(env),
            semantics::eval_entries(
                old(env).model(),
                entries_model(entries@),
                0,
                Seq::empty(),
                depth as nat,
            ),
            flow_entries(r),
        ),
        r matches Ok(Eval::Continue(map)) ==> distinct_keys(mapping_model(map@)),
    decreases 2 * depth + 1, entries, 0nat,
{
    let ghost es = entries_model(entries@);
    let ghost target = semantics::eval_entries(env.model(), es, 0, Seq::empty(), depth as nat);
    let mut map: Vec<(Key, Value)> = Vec::new();
    assert(mapping_model(map@) =~= Seq::empty());
    let mut i: usize = 0;
    while i < entries.len()
        invariant
            i <= entries.len(),
            es == entries_model(entries@),
            env.wf(),
            distinct_keys(mapping_model(map@)),
            env.model().frames.len() == old(env).model().frames.len(),
            semantics::eval_entries(env.model(), es, i as int, mapping_model(map@), depth as nat)
                == target,
            target == semantics::eval_entries(
                old(env).model(),
                entries_model(entries@),
                0,
                Seq::empty(),
                depth as nat,
            ),
        decreases entries.len() - i,
    {
        proof {
            reveal(semantics::eval_entries);
            reveal(semantics::eval_expr);
        }
        assert(es[i as int] == (entries@[i as int].0.model(), entries@[i as int].1.model()));
        assert(decreases_to!(entries => entries[i as int]));
        assert(decreases_to!(entries[i as int] => entries[i as int].0));
        assert(decreases_to!(entries[i as int] => entries[i as int].1));
        let k = match eval_expr(env, &entries[i].0, depth) {
            Ok(Eval::Continue(x)) => x,
            Ok(Eval::Return(b)) => {
                return Ok(Eval::Return(b));
            },
            Err(err) => {
                return Err(err);
            },
        };
        match to_key(&k) {
            Some(key) => {
                let v = match eval_expr(env, &entries[i].1, depth) {
                    Ok(Eval::Continue(x)) => x,
                    Ok(Eval::Return(b)) => {
                        return Ok(Eval::Return(b));
                    },
                    Err(err) => {
                        return Err(err);
                    },
                };
                mapping_insert(&mut map, key, v);
            },
            None => {
                return Err(
                    Error::ArgType {
                        pos: entries[i].0.pos(),
                        supplied: k,
                        expected: "int | bool | str as map key",
                    },
                );
            },
        }
        i += 1;
    }
    proof {
        reveal(semantics::eval_entries);
        reveal(semantics::eval_expr);
    }
    Ok(Eval::Continue(map))
}

/// The call of `target` on `args` at `pos`.
pub fn apply(env: &mut Env, pos: usize, target: Value, args: Vec<Value>, depth: usize) -> (r:
    Result<Value, Error>)
    requires
        old(env).wf(),
    ensures
        final(env).wf(),
        semantics::apply(old(env).model(), pos, target.model(), values_model(args@), depth as nat)
            == (Applied { env: final(env).model(), result: value_result(r) }),
        final(env).model().frames.len() == old(env).model().frames.len(),
    decreases 2 * depth, target, 0nat,
{
    proof {
        reveal(semantics::apply);
        reveal(semantics::eval_block);
    }
    match target {
        Value::Closure(closure) => {
            assert(closure.model().f == closure.f.model());
            assert(closure.f.model().parameters.len() == closure.f.parameters.len());
            if args.len() != closure.f.parameters.len() {
                Err(
                    Error::ArgCount {
                        pos,
                        supplied: args.len(),
                        expected: closure.f.parameters.len(),
                    },
                )
            } else if depth == 0 {
                Err(Error::CallDepth { pos, limit: env.call_depth })
            } else {
                bind_call_frame(env, &closure, &args);
                let r = eval_block(env, &closure.f.body, depth - 1);
                env.pop_frame();
                match r {
                    Ok(Eval::Continue(v)) => Ok(v),
                    Ok(Eval::Return(v)) => Ok(v),
                    Err(e) => Err(e),
                }
            }
        },
        Value::Builtin(f) => value::builtin::call(env, f, pos, args),
        _ => Err(Error::Call { pos, target, args }),
    }
}

/// Opens the scope in which the body of `closure` runs on `args`.
pub fn bind_call_frame(env: &mut Env, closure: &Rc<Closure>, args: &Vec<Value>)
    requires
        old(env).wf(),
        args@.len() == closure.f.parameters@.len(),
    ensures
        final(env).wf(),
        final(env).model() == semantics::call_frame(
            old(env).model(),
            closure.model(),
            values_model(args@),
        ),
        final(env).model().frames.len() == old(env).model().frames.len() + 1,
{
    let ghost c = closure.model();
    let ghost a = values_model(args@);
    env.push_frame();
    match &closure.recursive {
        Some(name) => {
            env.set(name.clone(), Value::Closure(share(closure)));
        },
        None => {},
    }
    let ghost own = env.model();
    let mut i: usize = 0;
    while i < closure.captured.len()
        invariant
            i <= closure.captured.len(),
            env.wf(),
            c == closure.model(),
            env.model().frames.len() == old(env).model().frames.len() + 1,
            semantics::bind_captured(env.model(), c.captured, i as int) == semantics::bind_captured(
                own,
                c.captured,
                0,
            ),
        decreases closure.captured.len() - i,
    {
        assert(c.captured[i as int] == (
            closure.captured@[i as int].0.model(),
            closure.captured@[i as int].1.model(),
        ));
        env.set(closure.captured[i].0.clone(), closure.captured[i].1.clone());
        i += 1;
    }
    let ghost captured = env.model();
    assert(c.f.parameters == idents_model(closure.f.parameters@));
    let mut j: usize = 0;
    while j < closure.f.parameters.len()
        invariant
            j <= closure.f.parameters.len(),
            args@.len() == closure.f.parameters@.len(),
            env.wf(),
            c == closure.model(),
            a == values_model(args@),
            c.f.parameters == idents_model(closure.f.parameters@),
            env.model().frames.len() == old(env).model().frames.len() + 1,
            semantics::bind_params(env.model(), c.f.parameters, a, j as int)
                == semantics::bind_params(captured, c.f.parameters, a, 0),
        decreases closure.f.parameters.len() - j,
    {
        assert(c.f.parameters[j as int] == closure.f.parameters@[j as int].model());
        assert(a[j as int] == args@[j as int].model());
        env.set(closure.f.parameters[j].clone(), args[j].clone());
        j += 1;
    }
}

/// Evaluates a call: the target, the arguments, and then the call itself.
pub fn eval_call(env: &mut Env, call: &ast::Call, depth: usize) -> (r: Result<Eval<Value>, Error>)
    requires
        old(env).wf(),
    ensures
        steps(
            *old(env),
            *final(env),
            semantics::eval_call(
                old(env).model(),
                ast::Expr::Call(Box::new(*call)).model(),
                depth as nat,
            ),
            flow_value(r),
        ),
    decreases 2 * depth + 1, call, 0nat,
{
    proof {
        reveal(semantics::eval_call);
        reveal(semantics::eval_expr);
        reveal(semantics::eval_exprs);
        reveal(semantics::apply);
    }
    let target = match eval_expr(env, &call.target, depth) {
        Ok(Eval::Continue(x)) => x,
        Ok(Eval::Return(b)) => {
            return Ok(Eval::Return(b));
        },
        Err(err) => {
            return Err(err);
        },
    };
    let args = match eval_exprs(env, &call.args, depth) {
        Ok(Eval::Continue(x)) => x,
        Ok(Eval::Return(b)) => {
            return Ok(Eval::Return(b));
        },
        Err(err) => {
            return Err(err);
        },
    };
    match apply(env, call.pos, target, args, depth) {
        Ok(v) => Ok(Eval::Continue(v)),
        Err(e) => Err(e),
    }
}

/// Evaluates the nodes of a block in the scope that the block stands in.
pub fn eval_block(env: &mut Env, block: &ast::Block, depth: usize) -> (r: Result<
    Eval<Value>,
    Error,
>)
    requires
        old(env).wf(),
    ensures
        steps(
            *old(env),
            *final(env),
            semantics::eval_block(old(env).model(), block.model(), depth as nat),
            flow_value(r),
        ),
    decreases 2 * depth + 1, block, 0nat,
{
    proof {
        reveal(semantics::eval_block);
        reveal(semantics::eval_nodes);
    }
    let ghost nodes = nodes_model(block.nodes@);
    let ghost target = semantics::eval_nodes(env.model(), nodes, 0, ValueModel::Unit, depth as nat);
    let mut result = Value::Unit;
    let mut i: usize = 0;
    while i < block.nodes.len()
        invariant
            i <= block.nodes.len(),
            nodes == nodes_model(block.nodes@),
            env.wf(),
            env.model().frames.len() == old(env).model().frames.len(),
            semantics::eval_nodes(env.model(), nodes, i as int, result.model(), depth as nat)
                == target,
            target == semantics::eval_block(old(env).model(), block.model(), depth as nat),
        decreases block.nodes.len() - i,
    {
        proof {
            reveal(semantics::eval_nodes);
            reveal(semantics::eval_node);
        }
        assert(nodes[i as int] == block.nodes@[i as int].model());
        assert(decreases_to!(block => block.nodes));
        assert(decreases_to!(block.nodes => block.nodes[i as int]));
        result = match eval_node(env, &block.nodes[i], depth) {
            Ok(Eval::Continue(x)) => x,
            Ok(Eval::Return(b)) => {
                return Ok(Eval::Return(b));
            },
            Err(err) => {
                return Err(err);
            },
        };
        i += 1;
    }
    proof {
        reveal(semantics::eval_nodes);
        reveal(semantics::eval_node);
    }
    Ok(Eval::Continue(result))
}

/// Evaluates a conditional.
pub fn eval_if(env: &mut Env, expr: &ast::If, depth: usize) -> (r: Result<Eval<Value>, Error>)
    requires
        old(env).wf(),
    ensures
        steps(
            *old(env),
            *final(env),
            semantics::eval_if(
                old(env).model(),
                ast::Expr::If(Box::new(*expr)).model(),
                depth as nat,
            ),
            flow_value(r),
        ),
    decreases 2 * depth + 1, expr, 0nat,
{
    proof {
        reveal(semantics::eval_if);
        reveal(semantics::eval_expr);
        reveal(semantics::eval_block);
    }
    let condition = match eval_expr(env, &expr.condition, depth) {
        Ok(Eval::Continue(x)) => x,
        Ok(Eval::Return(b)) => {
            return Ok(Eval::Return(b));
        },
        Err(err) => {
            return Err(err);
        },
    };
    let holds = match condition {
        Value::Bool(b) => b,
        _ => false,
    };
    if holds {
        eval_block(env, &expr.consequence, depth)
    } else {
        match &expr.alternative {
            Some(block) => eval_block(env, block, depth),
            None => Ok(Eval::Continue(Value::Unit)),
        }
    }
}

/// Looks `subscript` up in `base`.
pub fn index_value(pos: usize, base: Value, subscript: Value) -> (r: Result<Value, Error>)
    ensures
        value_result(r) == semantics::index(pos, base.model(), subscript.model()),
{
    match base {
        Value::Sequence(seq) => {
            let i = match subscript {
                Value::Int(i) => i,
                other => {
                    return Err(Error::Index { pos, base: Value::Sequence(seq), subscript: other });
                },
            };
            assert(values_model(seq@).len() == seq.len());
            if i < 0 || i as usize >= seq.len() {
                return Err(
                    Error::Index { pos, base: Value::Sequence(seq), subscript: Value::Int(i) },
                );
            }
            assert(values_model(seq@)[i as int] == seq@[i as int].model());
            Ok(seq[i as usize].clone())
        },
        Value::Mapping(map) => {
            let found = match to_key(&subscript) {
                Some(key) => match mapping_get(&map, &key) {
                    Some(v) => Some(v.clone()),
                    None => None,
                },
                None => None,
            };
            match found {
                Some(v) => Ok(v),
                None => Err(Error::Index { pos, base: Value::Mapping(map), subscript }),
            }
        },
        other => Err(Error::Index { pos, base: other, subscript }),
    }
}

/// Evaluates a subscript expression: the base, the subscript, and then
/// the lookup.
pub fn eval_index(env: &mut Env, index: &ast::Index, depth: usize) -> (r: Result<
    Eval<Value>,
    Error,
>)
    requires
        old(env).wf(),
    ensures
        steps(
            *old(env),
            *final(env),
            semantics::eval_index(
                old(env).model(),
                ast::Expr::Index(Box::new(*index)).model(),
                depth as nat,
            ),
            flow_value(r),
        ),
    decreases 2 * depth + 1, index, 0nat,
{
    proof {
        reveal(semantics::eval_index);
        reveal(semantics::eval_expr);
    }
    let base = match eval_expr(env, &index.base, depth) {
        Ok(Eval::Continue(x)) => x,
        Ok(Eval::Return(b)) => {
            return Ok(Eval::Return(b));
        },
        Err(err) => {
            return Err(err);
        },
    };
    let subscript = match eval_expr(env, &index.subscript, depth) {
        Ok(Eval::Continue(x)) => x,
        Ok(Eval::Return(b)) => {
            return Ok(Eval::Return(b));
        },
        Err(err) => {
            return Err(err);
        },
    };
    match index_value(index.pos, base, subscript) {
        Ok(v) => Ok(Eval::Continue(v)),
        Err(e) => Err(e),
    }
}

} // verus!
