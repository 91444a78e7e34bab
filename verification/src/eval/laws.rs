//! Laws of the language that hold of every program.

use crate::eval::env::{frames_get, Bindings, EnvModel};
use crate::eval::error::ErrorModel;
use crate::eval::render::render;
use crate::eval::semantics::{
    apply,
    bind_captured,
    bind_params,
    call_frame,
    eval_block,
    eval_call,
    eval_entries,
    eval_expr,
    eval_exprs,
    eval_if,
    eval_index,
    eval_node,
    eval_nodes,
    eval_stmt,
    named,
    position,
    run,
    Applied,
    Flow,
};
use crate::lex::lexer::State;
use crate::parse::grammar;
use crate::eval::value::builtin::{builtin_env, printed};
use crate::eval::value::{bind, lemma_bind_distinct, KeyModel};
use crate::eval::value::closure::{
    bound_after,
    captured_upto,
    free_in_block,
    free_in_entries,
    free_in_expr,
    free_in_exprs,
    free_in_node,
    free_in_nodes,
    new_closure,
    symbols,
    unbounded,
    undefined_upto,
};
use crate::eval::value::{
    key_of,
    lemma_lookup_bound,
    lemma_lookup_other,
    value_eq,
    variant_name,
    Builtin,
    ClosureModel,
    ValueModel,
};
use crate::parse::ast::{BlockModel, ExprModel, FnModel, IdentModel, NodeModel, StmtModel};
use vstd::prelude::*;

verus! {

/// Integers, booleans and text.
pub open spec fn primitive(v: ValueModel) -> bool {
    v is Int || v is Bool || v is Str
}

/// `a` and `b` are of the same variant.
pub open spec fn same_variant(a: ValueModel, b: ValueModel) -> bool {
    variant_name(a) == variant_name(b)
}

/// Equality of integers, of booleans and of text is reflexive and
/// symmetric, and equal values are written out alike.
pub proof fn lemma_primitive_equality(a: ValueModel, b: ValueModel)
    requires
        primitive(a),
        primitive(b),
        a is Int <==> b is Int,
        a is Bool <==> b is Bool,
        a is Str <==> b is Str,
    ensures
        value_eq(a, a),
        value_eq(a, b) == value_eq(b, a),
        value_eq(a, b) ==> render(a) == render(b),
{
}

/// A value makes a map key exactly when it is an integer, a boolean or
/// text, and the key is the same whenever the value is.
pub proof fn lemma_key_projection(v: ValueModel)
    ensures
        key_of(v) is Some <==> primitive(v),
{
}

/// A closure called with another number of arguments than it has
/// parameters yields an error that says so, whatever the environment, and
/// leaves the environment as it was.
pub proof fn lemma_arity_is_checked(
    env: EnvModel,
    pos: usize,
    closure: ClosureModel,
    args: Seq<ValueModel>,
    depth: nat,
)
    requires
        args.len() != closure.f.parameters.len(),
    ensures
        apply(env, pos, ValueModel::Closure(closure), args, depth) == (Applied {
            env,
            result: Err(
                ErrorModel::ArgCount {
                    pos,
                    supplied: args.len() as usize,
                    expected: closure.f.parameters.len() as usize,
                },
            ),
        }),
{
    reveal(apply);
}

/// `type(x)` yields the name of the variant of `x` in every environment,
/// however often it is called, and leaves the environment as it was.
pub proof fn lemma_type_is_pure(env: EnvModel, pos: usize, arg: ValueModel, depth: nat)
    ensures
        apply(env, pos, ValueModel::Builtin(Builtin::Type), seq![arg], depth) == (Applied {
            env,
            result: Ok(ValueModel::Str(variant_name(arg))),
        }),
{
    reveal(apply);
}

/// The scopes below `upto` yield the same values in two stacks that agree
/// below `upto`.
pub proof fn lemma_frames_get_agree(a: Seq<Bindings>, b: Seq<Bindings>, sym: Seq<char>, upto: int)
    requires
        upto <= a.len(),
        upto <= b.len(),
        forall|i: int| 0 <= i < upto ==> a[i] == b[i],
    ensures
        frames_get(a, sym, upto) == frames_get(b, sym, upto),
    decreases upto,
{
    if 0 < upto {
        lemma_frames_get_agree(a, b, sym, upto - 1);
    }
}

/// After `sym` is set to `value`, it has this value, and every other
/// symbol has the value it had.
pub proof fn lemma_get_after_set(env: EnvModel, sym: Seq<char>, value: ValueModel, other: Seq<char>)
    ensures
        env.set(sym, value).get(other) == if other == sym {
            Some(value)
        } else {
            env.get(other)
        },
{
    let after = env.set(sym, value);
    if env.frames.len() > 0 {
        let top = env.frames.len() - 1;
        lemma_frames_get_agree(env.frames, after.frames, other, top);
        if other == sym {
            lemma_lookup_bound(env.frames[top], sym, value);
        } else {
            lemma_lookup_other(env.frames[top], sym, value, other);
        }
    } else {
        if other == sym {
            lemma_lookup_bound(env.global, sym, value);
        } else {
            lemma_lookup_other(env.global, sym, value, other);
        }
    }
}

/// Binding parameters leaves every symbol that is no parameter as it was.
pub proof fn lemma_params_keep(
    env: EnvModel,
    params: Seq<IdentModel>,
    args: Seq<ValueModel>,
    from: int,
    sym: Seq<char>,
)
    requires
        0 <= from,
        forall|i: int| from <= i < params.len() ==> (#[trigger] params[i]).sym != sym,
    ensures
        bind_params(env, params, args, from).get(sym) == env.get(sym),
    decreases params.len() - from,
{
    if from < params.len() {
        lemma_get_after_set(env, params[from].sym, args[from], sym);
        lemma_params_keep(env.set(params[from].sym, args[from]), params, args, from + 1, sym);
    }
}

/// Binding what was captured gives a symbol the value of its last capture;
/// `held` is the value it has before the captures from `from` on are
/// bound.
pub proof fn lemma_captured_bound(
    env: EnvModel,
    captured: Seq<(IdentModel, ValueModel)>,
    from: int,
    sym: Seq<char>,
    value: ValueModel,
)
    requires
        0 <= from,
        forall|i: int|
            from <= i < captured.len() && (#[trigger] captured[i]).0.sym == sym ==> captured[i].1
                == value,
        env.get(sym) == Some(value) || exists|i: int|
            from <= i < captured.len() && (#[trigger] captured[i]).0.sym == sym,
    ensures
        bind_captured(env, captured, from).get(sym) == Some(value),
    decreases captured.len() - from,
{
    if from < captured.len() {
        let next = env.set(captured[from].0.sym, captured[from].1);
        lemma_get_after_set(env, captured[from].0.sym, captured[from].1, sym);
        if captured[from].0.sym == sym {
            assert(next.get(sym) == Some(value));
        } else if env.get(sym) != Some(value) {
            let i = choose|i: int|
                from <= i < captured.len() && (#[trigger] captured[i]).0.sym == sym;
            assert(from + 1 <= i);
        }
        lemma_captured_bound(next, captured, from + 1, sym, value);
    }
}

/// What was captured for the first `upto` identifiers is what the
/// environment held for them.
pub proof fn lemma_captured_values(idents: Seq<IdentModel>, env: EnvModel, upto: int)
    requires
        0 <= upto <= idents.len(),
    ensures
        forall|j: int|
            0 <= j < captured_upto(idents, env, upto).len() ==> env.get(
                (#[trigger] captured_upto(idents, env, upto)[j]).0.sym,
            ) == Some(captured_upto(idents, env, upto)[j].1),
        forall|i: int|
            0 <= i < upto && env.get((#[trigger] idents[i]).sym) is Some ==> exists|j: int|
                0 <= j < captured_upto(idents, env, upto).len() && (#[trigger] captured_upto(
                    idents,
                    env,
                    upto,
                )[j]).0.sym == idents[i].sym,
    decreases upto,
{
    if 0 < upto {
        lemma_captured_values(idents, env, upto - 1);
        let before = captured_upto(idents, env, upto - 1);
        let now = captured_upto(idents, env, upto);
        assert forall|i: int| 0 <= i < upto && env.get((#[trigger] idents[i]).sym) is Some implies exists|
            j: int,
        |
            0 <= j < now.len() && (#[trigger] now[j]).0.sym == idents[i].sym by {
            if i < upto - 1 {
                let j = choose|j: int|
                    0 <= j < before.len() && (#[trigger] before[j]).0.sym == idents[i].sym;
                assert(now[j] == before[j]);
            } else {
                assert(now[now.len() - 1].0.sym == idents[i].sym);
            }
        }
    }
}

/// None of `idents` has the symbol `sym`.
pub open spec fn avoids(idents: Seq<IdentModel>, sym: Seq<char>) -> bool {
    forall|i: int| 0 <= i < idents.len() ==> (#[trigger] idents[i]).sym != sym
}

/// Where two sequences of identifiers avoid a symbol, so do the two
/// together.
pub proof fn lemma_avoids_add(a: Seq<IdentModel>, b: Seq<IdentModel>, sym: Seq<char>)
    requires
        avoids(a, sym),
        avoids(b, sym),
    ensures
        avoids(a + b, sym),
{
    assert forall|i: int| 0 <= i < (a + b).len() implies (#[trigger] (a + b)[i]).sym != sym by {
        if i < a.len() {
            assert((a + b)[i] == a[i]);
        } else {
            assert((a + b)[i] == b[i - a.len()]);
        }
    }
}

/// No free identifier of an expression has a symbol that is bound.
pub proof fn lemma_free_in_expr(e: ExprModel, bound: Seq<Seq<char>>, sym: Seq<char>)
    requires
        bound.contains(sym),
    ensures
        avoids(free_in_expr(e, bound), sym),
    decreases e, 0nat,
{
    match e {
        ExprModel::Sequence { elements, .. } => {
            lemma_free_in_exprs(elements, 0, bound, sym);
        },
        ExprModel::Unary { value, .. } => {
            lemma_free_in_expr(*value, bound, sym);
        },
        ExprModel::Binary { left, right, .. } => {
            lemma_free_in_expr(*left, bound, sym);
            lemma_free_in_expr(*right, bound, sym);
            lemma_avoids_add(free_in_expr(*left, bound), free_in_expr(*right, bound), sym);
        },
        ExprModel::If { condition, consequence, alternative, .. } => {
            lemma_free_in_expr(*condition, bound, sym);
            lemma_free_in_block(consequence, bound, sym);
            let first = free_in_expr(*condition, bound) + free_in_block(consequence, bound);
            lemma_avoids_add(
                free_in_expr(*condition, bound),
                free_in_block(consequence, bound),
                sym,
            );
            match alternative {
                Some(block) => {
                    lemma_free_in_block(block, bound, sym);
                    lemma_avoids_add(first, free_in_block(block, bound), sym);
                },
                None => {
                    lemma_avoids_add(first, Seq::empty(), sym);
                },
            }
        },
        ExprModel::Call { target, args, .. } => {
            lemma_free_in_expr(*target, bound, sym);
            lemma_free_in_exprs(args, 0, bound, sym);
            lemma_avoids_add(free_in_expr(*target, bound), free_in_exprs(args, 0, bound), sym);
        },
        ExprModel::Mapping { entries, .. } => {
            lemma_free_in_entries(entries, 0, bound, sym);
        },
        ExprModel::Index { base, subscript, .. } => {
            lemma_free_in_expr(*base, bound, sym);
            lemma_free_in_expr(*subscript, bound, sym);
            lemma_avoids_add(free_in_expr(*base, bound), free_in_expr(*subscript, bound), sym);
        },
        _ => {},
    }
}

/// No free identifier of a sequence of expressions has a symbol that is
/// bound.
pub proof fn lemma_free_in_exprs(es: Seq<ExprModel>, from: int, bound: Seq<Seq<char>>, sym: Seq<char>)
    requires
        bound.contains(sym),
    ensures
        avoids(free_in_exprs(es, from, bound), sym),
    decreases es, es.len() - from,
{
    if 0 <= from < es.len() {
        lemma_free_in_expr(es[from], bound, sym);
        lemma_free_in_exprs(es, from + 1, bound, sym);
        lemma_avoids_add(free_in_expr(es[from], bound), free_in_exprs(es, from + 1, bound), sym);
    }
}

/// No free identifier of the entries of a map literal has a symbol that is
/// bound.
pub proof fn lemma_free_in_entries(
    es: Seq<(ExprModel, ExprModel)>,
    from: int,
    bound: Seq<Seq<char>>,
    sym: Seq<char>,
)
    requires
        bound.contains(sym),
    ensures
        avoids(free_in_entries(es, from, bound), sym),
    decreases es, es.len() - from,
{
    if 0 <= from < es.len() {
        lemma_free_in_expr(es[from].0, bound, sym);
        lemma_free_in_expr(es[from].1, bound, sym);
        lemma_free_in_entries(es, from + 1, bound, sym);
        let first = free_in_expr(es[from].0, bound) + free_in_expr(es[from].1, bound);
        lemma_avoids_add(free_in_expr(es[from].0, bound), free_in_expr(es[from].1, bound), sym);
        lemma_avoids_add(first, free_in_entries(es, from + 1, bound), sym);
    }
}

/// No free identifier of a block has a symbol that is bound around it.
pub proof fn lemma_free_in_block(block: BlockModel, bound: Seq<Seq<char>>, sym: Seq<char>)
    requires
        bound.contains(sym),
    ensures
        avoids(free_in_block(block, bound), sym),
    decreases block, 0nat,
{
    lemma_free_in_nodes(block.nodes, 0, bound, sym);
}

/// No free identifier of a sequence of nodes has a symbol that is bound
/// before them.
pub proof fn lemma_free_in_nodes(
    nodes: Seq<NodeModel>,
    from: int,
    bound: Seq<Seq<char>>,
    sym: Seq<char>,
)
    requires
        bound.contains(sym),
    ensures
        avoids(free_in_nodes(nodes, from, bound), sym),
    decreases nodes, nodes.len() - from,
{
    if 0 <= from < nodes.len() {
        match nodes[from] {
            NodeModel::Expr(e) => {
                lemma_free_in_expr(e, bound, sym);
            },
            NodeModel::Stmt(StmtModel::Let { value, .. }) => {
                lemma_free_in_expr(value, bound, sym);
            },
            NodeModel::Stmt(StmtModel::Return { value, .. }) => match value {
                Some(e) => {
                    lemma_free_in_expr(e, bound, sym);
                },
                None => {},
            },
        }
        let after = bound_after(nodes[from], bound);
        let at = choose|i: int| 0 <= i < bound.len() && bound[i] == sym;
        assert(after[at] == sym);
        lemma_free_in_nodes(nodes, from + 1, after, sym);
        lemma_avoids_add(
            free_in_node(nodes[from], bound),
            free_in_nodes(nodes, from + 1, after),
            sym,
        );
    }
}

/// Capture is by value: when a closure is called, every identifier that
/// it captured has the value that it had in the environment in which the
/// closure was made, whatever the environment of the call binds it to.
pub proof fn lemma_capture_by_value(
    f: FnModel,
    made_in: EnvModel,
    called_in: EnvModel,
    args: Seq<ValueModel>,
    i: int,
)
    requires
        0 <= i < unbounded(f).len(),
        made_in.get(unbounded(f)[i].sym) is Some,
    ensures
        call_frame(called_in, new_closure(f, made_in), args).get(unbounded(f)[i].sym)
            == made_in.get(unbounded(f)[i].sym),
{
    let free = unbounded(f);
    let sym = free[i].sym;
    let value = made_in.get(sym)->0;
    let closure = new_closure(f, made_in);
    lemma_captured_values(free, made_in, free.len() as int);
    let opened = called_in.push_frame();
    lemma_captured_bound(opened, closure.captured, 0, sym, value);
    let bound = bind_captured(opened, closure.captured, 0);
    assert forall|p: int| 0 <= p < f.parameters.len() implies (#[trigger] f.parameters[p]).sym
        != sym by {
        let names = symbols(f.parameters);
        if f.parameters[p].sym == sym {
            assert(names[p] == sym);
            lemma_free_in_block(f.body, names, sym);
            assert(free[i].sym != sym);
        }
    }
    lemma_params_keep(bound, f.parameters, args, 0, sym);
}


/// None of the identifiers that were left undefined resolves in the
/// environment in which the closure was made.
pub proof fn lemma_undefined_unresolved(idents: Seq<IdentModel>, env: EnvModel, upto: int)
    requires
        0 <= upto <= idents.len(),
    ensures
        forall|j: int|
            0 <= j < undefined_upto(idents, env, upto).len() ==> env.get(
                (#[trigger] undefined_upto(idents, env, upto)[j]).sym,
            ) is None,
    decreases upto,
{
    if 0 < upto {
        lemma_undefined_unresolved(idents, env, upto - 1);
    }
}

/// What `position` yields is a place of the symbol.
pub proof fn lemma_position(idents: Seq<IdentModel>, sym: Seq<char>, from: int)
    requires
        0 <= from,
    ensures
        position(idents, sym, from) matches Some(i) ==> from <= i < idents.len() && idents[i].sym
            == sym,
    decreases idents.len() - from,
{
    if from < idents.len() && idents[from].sym != sym {
        lemma_position(idents, sym, from + 1);
    }
}

/// Capture is by value for a closure that a `let` has bound, too: the
/// name that the closure calls itself by hides nothing that it captured.
pub proof fn lemma_capture_by_value_named(
    f: FnModel,
    made_in: EnvModel,
    name: IdentModel,
    called_in: EnvModel,
    args: Seq<ValueModel>,
    i: int,
)
    requires
        0 <= i < unbounded(f).len(),
        made_in.get(unbounded(f)[i].sym) is Some,
    ensures
        named(ValueModel::Closure(new_closure(f, made_in)), name) matches ValueModel::Closure(
            closure,
        ) && call_frame(called_in, closure, args).get(unbounded(f)[i].sym) == made_in.get(
            unbounded(f)[i].sym,
        ),
{
    let free = unbounded(f);
    let sym = free[i].sym;
    let value = made_in.get(sym)->0;
    let made = new_closure(f, made_in);
    let closure = named(ValueModel::Closure(made), name)->Closure_0;
    lemma_captured_values(free, made_in, free.len() as int);
    lemma_undefined_unresolved(free, made_in, free.len() as int);
    lemma_position(made.undefined, name.sym, 0);
    let opened = called_in.push_frame();
    let own = match closure.recursive {
        Some(n) => opened.set(n.sym, ValueModel::Closure(closure)),
        None => opened,
    };
    match closure.recursive {
        Some(n) => {
            lemma_get_after_set(opened, n.sym, ValueModel::Closure(closure), sym);
        },
        None => {},
    }
    assert(closure.captured == made.captured);
    lemma_captured_bound(own, closure.captured, 0, sym, value);
    let bound = bind_captured(own, closure.captured, 0);
    assert forall|p: int| 0 <= p < f.parameters.len() implies (#[trigger] f.parameters[p]).sym
        != sym by {
        let names = symbols(f.parameters);
        if f.parameters[p].sym == sym {
            assert(names[p] == sym);
            lemma_free_in_block(f.body, names, sym);
            assert(free[i].sym != sym);
        }
    }
    lemma_params_keep(bound, f.parameters, args, 0, sym);
}


/// What an evaluation step may make of an environment: it leaves as many
/// scopes open as it found and each of them binding every symbol once, it
/// keeps the limit on calls, it takes no closure number back, and it keeps
/// every line of output that was written.
pub open spec fn ensues(before: EnvModel, after: EnvModel) -> bool {
    &&& after.frames.len() == before.frames.len()
    &&& after.call_depth == before.call_depth
    &&& before.next_id <= after.next_id
    &&& before.output.len() <= after.output.len()
    &&& after.output.subrange(0, before.output.len() as int) == before.output
    &&& (before.wf() ==> after.wf())
}

/// An environment ensues from itself.
pub proof fn lemma_ensues_itself(env: EnvModel)
    ensures
        ensues(env, env),
{
    assert(env.output.subrange(0, env.output.len() as int) =~= env.output);
}

/// What ensues from what ensues from an environment ensues from it.
pub proof fn lemma_ensues_on(a: EnvModel, b: EnvModel, c: EnvModel)
    requires
        ensues(a, b),
        ensues(b, c),
    ensures
        ensues(a, c),
{
    assert forall|i: int| 0 <= i < a.output.len() implies c.output[i] == a.output[i] by {
        assert(b.output[i] == b.output.subrange(0, a.output.len() as int)[i]);
        assert(c.output[i] == c.output.subrange(0, b.output.len() as int)[i]);
    }
    assert(c.output.subrange(0, a.output.len() as int) =~= a.output);
}

/// Binding a symbol changes nothing but that binding.
pub proof fn lemma_set_ensues(env: EnvModel, sym: Seq<char>, value: ValueModel)
    ensures
        ensues(env, env.set(sym, value)),
        env.set(sym, value).next_id == env.next_id,
        env.set(sym, value).output == env.output,
{
    lemma_ensues_itself(env);
    let after = env.set(sym, value);
    if env.wf() {
        if env.frames.len() > 0 {
            let top = env.frames.len() - 1;
            lemma_bind_distinct(env.frames[top], sym, value);
            assert forall|i: int| 0 <= i < after.frames.len() implies distinct_frame(
                #[trigger] after.frames[i],
            ) by {
                if i != top {
                    assert(after.frames[i] == env.frames[i]);
                }
            }
        } else {
            lemma_bind_distinct(env.global, sym, value);
        }
    }
}

/// A scope binds every symbol once.
pub open spec fn distinct_frame(frame: Bindings) -> bool {
    crate::eval::value::distinct_keys(frame)
}

/// `print` keeps every line that was written before.
pub proof fn lemma_printed(output: Seq<Seq<char>>, args: Seq<ValueModel>, from: int)
    ensures
        output.len() <= printed(output, args, from).len(),
        printed(output, args, from).subrange(0, output.len() as int) == output,
    decreases args.len() - from,
{
    if 0 <= from < args.len() {
        let next = output.push(render(args[from]));
        lemma_printed(next, args, from + 1);
        let all = printed(next, args, from + 1);
        assert forall|i: int| 0 <= i < output.len() implies all[i] == output[i] by {
            assert(all[i] == all.subrange(0, next.len() as int)[i]);
        }
        assert(all.subrange(0, output.len() as int) =~= output);
    } else {
        assert(output.subrange(0, output.len() as int) =~= output);
    }
}

/// A native function changes nothing but the output, which only grows.
pub proof fn lemma_builtin_ensues(env: EnvModel, f: Builtin, args: Seq<ValueModel>)
    ensures
        ensues(env, builtin_env(env, f, args)),
{
    lemma_ensues_itself(env);
    lemma_printed(env.output, args, 0);
    let line: Seq<char> = Seq::empty();
    assert(env.output.push(line).subrange(0, env.output.len() as int) =~= env.output);
}

/// Binding what was captured changes nothing but bindings.
pub proof fn lemma_bind_captured_ensues(
    env: EnvModel,
    captured: Seq<(IdentModel, ValueModel)>,
    from: int,
)
    ensures
        ensues(env, bind_captured(env, captured, from)),
        bind_captured(env, captured, from).next_id == env.next_id,
        bind_captured(env, captured, from).output == env.output,
    decreases captured.len() - from,
{
    if 0 <= from < captured.len() {
        let next = env.set(captured[from].0.sym, captured[from].1);
        lemma_set_ensues(env, captured[from].0.sym, captured[from].1);
        lemma_bind_captured_ensues(next, captured, from + 1);
        lemma_ensues_on(env, next, bind_captured(next, captured, from + 1));
    } else {
        lemma_ensues_itself(env);
    }
}

/// Binding parameters changes nothing but bindings.
pub proof fn lemma_bind_params_ensues(
    env: EnvModel,
    params: Seq<IdentModel>,
    args: Seq<ValueModel>,
    from: int,
)
    ensures
        ensues(env, bind_params(env, params, args, from)),
        bind_params(env, params, args, from).next_id == env.next_id,
        bind_params(env, params, args, from).output == env.output,
    decreases params.len() - from,
{
    if 0 <= from < params.len() {
        let next = env.set(params[from].sym, args[from]);
        lemma_set_ensues(env, params[from].sym, args[from]);
        lemma_bind_params_ensues(next, params, args, from + 1);
        lemma_ensues_on(env, next, bind_params(next, params, args, from + 1));
    } else {
        lemma_ensues_itself(env);
    }
}

/// A call frame is one more scope on the environment of the call.
pub proof fn lemma_call_frame(env: EnvModel, closure: ClosureModel, args: Seq<ValueModel>)
    ensures
        ensues(env.push_frame(), call_frame(env, closure, args)),
        call_frame(env, closure, args).next_id == env.next_id,
        call_frame(env, closure, args).output == env.output,
{
    let opened = env.push_frame();
    let own = match closure.recursive {
        Some(name) => opened.set(name.sym, ValueModel::Closure(closure)),
        None => opened,
    };
    match closure.recursive {
        Some(name) => {
            lemma_set_ensues(opened, name.sym, ValueModel::Closure(closure));
        },
        None => {
            lemma_ensues_itself(opened);
        },
    }
    lemma_bind_captured_ensues(own, closure.captured, 0);
    let captured = bind_captured(own, closure.captured, 0);
    lemma_bind_params_ensues(captured, closure.f.parameters, args, 0);
    lemma_ensues_on(opened, own, captured);
    lemma_ensues_on(opened, captured, bind_params(captured, closure.f.parameters, args, 0));
}

/// Whatever a call yields, the environment it leaves ensues from the one
/// it found.
pub proof fn lemma_apply_ensues(
    env: EnvModel,
    pos: usize,
    target: ValueModel,
    args: Seq<ValueModel>,
    depth: nat,
)
    ensures
        ensues(env, apply(env, pos, target, args, depth).env),
    decreases 2 * depth, target, 0nat,
{
    reveal(apply);
    reveal(eval_block);
    lemma_ensues_itself(env);
    match target {
        ValueModel::Closure(closure) => {
            if args.len() == closure.f.parameters.len() && depth > 0 {
                let frame = call_frame(env, closure, args);
                lemma_call_frame(env, closure, args);
                lemma_eval_block_ensues(frame, closure.f.body, (depth - 1) as nat);
                let body = eval_block(frame, closure.f.body, (depth - 1) as nat);
                let opened = env.push_frame();
                assert(opened.frames.drop_last() == env.frames);
                lemma_ensues_on(opened, frame, body.env);
                let closed = body.env.pop_frame();
                if env.wf() {
                    assert forall|i: int| 0 <= i < opened.frames.len() implies distinct_frame(
                        #[trigger] opened.frames[i],
                    ) by {
                        if i < env.frames.len() {
                            assert(opened.frames[i] == env.frames[i]);
                        }
                    }
                    assert(opened.wf());
                    assert forall|i: int| 0 <= i < closed.frames.len() implies distinct_frame(
                        #[trigger] closed.frames[i],
                    ) by {
                        assert(closed.frames[i] == body.env.frames[i]);
                    }
                }
            }
        },
        ValueModel::Builtin(f) => {
            lemma_builtin_ensues(env, f, args);
        },
        _ => {},
    }
}

/// Whatever a node yields, the environment it leaves ensues from the one
/// it found.
pub proof fn lemma_eval_node_ensues(env: EnvModel, node: NodeModel, depth: nat)
    ensures
        ensues(env, eval_node(env, node, depth).env),
    decreases 2 * depth + 1, node, 1nat,
{
    reveal(eval_node);
    reveal(eval_expr);
    reveal(eval_stmt);
    match node {
        NodeModel::Expr(e) => {
            lemma_eval_expr_ensues(env, e, depth);
        },
        NodeModel::Stmt(s) => {
            lemma_eval_stmt_ensues(env, s, depth);
        },
    }
}

/// Whatever a statement yields, the environment it leaves ensues from the
/// one it found.
pub proof fn lemma_eval_stmt_ensues(env: EnvModel, stmt: StmtModel, depth: nat)
    ensures
        ensues(env, eval_stmt(env, stmt, depth).env),
    decreases 2 * depth + 1, stmt, 1nat,
{
    reveal(eval_stmt);
    reveal(eval_expr);
    lemma_ensues_itself(env);
    match stmt {
        StmtModel::Let { ident, value, .. } => {
            lemma_eval_expr_ensues(env, value, depth);
            let o = eval_expr(env, value, depth);
            match o.result {
                Ok(Flow::Continue(v)) => {
                    lemma_set_ensues(o.env, ident.sym, named(v, ident));
                    lemma_ensues_on(env, o.env, o.env.set(ident.sym, named(v, ident)));
                },
                _ => {},
            }
        },
        StmtModel::Return { value, .. } => match value {
            Some(e) => {
                lemma_eval_expr_ensues(env, e, depth);
            },
            None => {},
        },
    }
}

/// Whatever an expression yields, the environment it leaves ensues from
/// the one it found.
pub proof fn lemma_eval_expr_ensues(env: EnvModel, expr: ExprModel, depth: nat)
    ensures
        ensues(env, eval_expr(env, expr, depth).env),
    decreases 2 * depth + 1, expr, 1nat,
{
    reveal(eval_expr);
    reveal(eval_exprs);
    reveal(eval_entries);
    reveal(eval_call);
    reveal(eval_index);
    reveal(eval_if);
    lemma_ensues_itself(env);
    match expr {
        ExprModel::Sequence { elements, .. } => {
            lemma_eval_exprs_ensues(env, elements, 0, Seq::empty(), depth);
        },
        ExprModel::Unary { value, .. } => {
            lemma_eval_expr_ensues(env, *value, depth);
        },
        ExprModel::Binary { left, right, .. } => {
            lemma_eval_expr_ensues(env, *left, depth);
            let l = eval_expr(env, *left, depth);
            match l.result {
                Ok(Flow::Continue(_)) => {
                    lemma_eval_expr_ensues(l.env, *right, depth);
                    lemma_ensues_on(env, l.env, eval_expr(l.env, *right, depth).env);
                },
                _ => {},
            }
        },
        ExprModel::Closure(_) => {
            assert(env.after_fresh_id().frames == env.frames);
        },
        ExprModel::Mapping { entries, .. } => {
            lemma_eval_entries_ensues(env, entries, 0, Seq::empty(), depth);
        },
        ExprModel::Call { .. } => {
            lemma_eval_call_ensues(env, expr, depth);
        },
        ExprModel::Index { .. } => {
            lemma_eval_index_ensues(env, expr, depth);
        },
        ExprModel::If { .. } => {
            lemma_eval_if_ensues(env, expr, depth);
        },
        _ => {},
    }
}

/// Whatever a sequence of expressions yields, the environment it leaves
/// ensues from the one it found.
pub proof fn lemma_eval_exprs_ensues(
    env: EnvModel,
    es: Seq<ExprModel>,
    from: int,
    acc: Seq<ValueModel>,
    depth: nat,
)
    ensures
        ensues(env, eval_exprs(env, es, from, acc, depth).env),
    decreases 2 * depth + 1, es, es.len() - from,
{
    reveal(eval_exprs);
    reveal(eval_expr);
    lemma_ensues_itself(env);
    if 0 <= from < es.len() {
        lemma_eval_expr_ensues(env, es[from], depth);
        let o = eval_expr(env, es[from], depth);
        match o.result {
            Ok(Flow::Continue(v)) => {
                lemma_eval_exprs_ensues(o.env, es, from + 1, acc.push(v), depth);
                lemma_ensues_on(
                    env,
                    o.env,
                    eval_exprs(o.env, es, from + 1, acc.push(v), depth).env,
                );
            },
            _ => {},
        }
    }
}

/// Whatever the entries of a map literal yield, the environment they
/// leave ensues from the one they found.
pub proof fn lemma_eval_entries_ensues(
    env: EnvModel,
    es: Seq<(ExprModel, ExprModel)>,
    from: int,
    acc: Seq<(KeyModel, ValueModel)>,
    depth: nat,
)
    ensures
        ensues(env, eval_entries(env, es, from, acc, depth).env),
    decreases 2 * depth + 1, es, es.len() - from,
{
    reveal(eval_entries);
    reveal(eval_expr);
    lemma_ensues_itself(env);
    if 0 <= from < es.len() {
        lemma_eval_expr_ensues(env, es[from].0, depth);
        let k = eval_expr(env, es[from].0, depth);
        match k.result {
            Ok(Flow::Continue(kv)) => match key_of(kv) {
                Some(key) => {
                    lemma_eval_expr_ensues(k.env, es[from].1, depth);
                    let v = eval_expr(k.env, es[from].1, depth);
                    lemma_ensues_on(env, k.env, v.env);
                    match v.result {
                        Ok(Flow::Continue(vv)) => {
                            lemma_eval_entries_ensues(
                                v.env,
                                es,
                                from + 1,
                                bind(acc, key, vv),
                                depth,
                            );
                            lemma_ensues_on(
                                env,
                                v.env,
                                eval_entries(v.env, es, from + 1, bind(acc, key, vv), depth).env,
                            );
                        },
                        _ => {},
                    }
                },
                None => {},
            },
            _ => {},
        }
    }
}

/// Whatever a call expression yields, the environment it leaves ensues
/// from the one it found.
pub proof fn lemma_eval_call_ensues(env: EnvModel, expr: ExprModel, depth: nat)
    ensures
        ensues(env, eval_call(env, expr, depth).env),
    decreases 2 * depth + 1, expr, 0nat,
{
    reveal(eval_call);
    reveal(eval_expr);
    reveal(eval_exprs);
    reveal(apply);
    lemma_ensues_itself(env);
    match expr {
        ExprModel::Call { pos, target, args } => {
            lemma_eval_expr_ensues(env, *target, depth);
            let t = eval_expr(env, *target, depth);
            match t.result {
                Ok(Flow::Continue(f)) => {
                    lemma_eval_exprs_ensues(t.env, args, 0, Seq::empty(), depth);
                    let a = eval_exprs(t.env, args, 0, Seq::empty(), depth);
                    lemma_ensues_on(env, t.env, a.env);
                    match a.result {
                        Ok(Flow::Continue(values)) => {
                            lemma_apply_ensues(a.env, pos, f, values, depth);
                            lemma_ensues_on(env, a.env, apply(a.env, pos, f, values, depth).env);
                        },
                        _ => {},
                    }
                },
                _ => {},
            }
        },
        _ => {},
    }
}

/// Whatever a block yields, the environment it leaves ensues from the one
/// it found.
pub proof fn lemma_eval_block_ensues(env: EnvModel, block: BlockModel, depth: nat)
    ensures
        ensues(env, eval_block(env, block, depth).env),
    decreases 2 * depth + 1, block, 0nat,
{
    reveal(eval_block);
    reveal(eval_nodes);
    lemma_eval_nodes_ensues(env, block.nodes, 0, ValueModel::Unit, depth);
}

/// Whatever a sequence of nodes yields, the environment it leaves ensues
/// from the one it found.
pub proof fn lemma_eval_nodes_ensues(
    env: EnvModel,
    nodes: Seq<NodeModel>,
    from: int,
    last: ValueModel,
    depth: nat,
)
    ensures
        ensues(env, eval_nodes(env, nodes, from, last, depth).env),
    decreases 2 * depth + 1, nodes, nodes.len() - from,
{
    reveal(eval_nodes);
    reveal(eval_node);
    lemma_ensues_itself(env);
    if 0 <= from < nodes.len() {
        lemma_eval_node_ensues(env, nodes[from], depth);
        let o = eval_node(env, nodes[from], depth);
        match o.result {
            Ok(Flow::Continue(v)) => {
                lemma_eval_nodes_ensues(o.env, nodes, from + 1, v, depth);
                lemma_ensues_on(env, o.env, eval_nodes(o.env, nodes, from + 1, v, depth).env);
            },
            _ => {},
        }
    }
}

/// Whatever a conditional yields, the environment it leaves ensues from
/// the one it found.
pub proof fn lemma_eval_if_ensues(env: EnvModel, expr: ExprModel, depth: nat)
    ensures
        ensues(env, eval_if(env, expr, depth).env),
    decreases 2 * depth + 1, expr, 0nat,
{
    reveal(eval_if);
    reveal(eval_expr);
    reveal(eval_block);
    lemma_ensues_itself(env);
    match expr {
        ExprModel::If { condition, consequence, alternative, .. } => {
            lemma_eval_expr_ensues(env, *condition, depth);
            let c = eval_expr(env, *condition, depth);
            match c.result {
                Ok(Flow::Continue(v)) => {
                    if v == ValueModel::Bool(true) {
                        lemma_eval_block_ensues(c.env, consequence, depth);
                        lemma_ensues_on(env, c.env, eval_block(c.env, consequence, depth).env);
                    } else {
                        match alternative {
                            Some(block) => {
                                lemma_eval_block_ensues(c.env, block, depth);
                                lemma_ensues_on(env, c.env, eval_block(c.env, block, depth).env);
                            },
                            None => {},
                        }
                    }
                },
                _ => {},
            }
        },
        _ => {},
    }
}

/// Whatever a subscript expression yields, the environment it leaves
/// ensues from the one it found.
pub proof fn lemma_eval_index_ensues(env: EnvModel, expr: ExprModel, depth: nat)
    ensures
        ensues(env, eval_index(env, expr, depth).env),
    decreases 2 * depth + 1, expr, 0nat,
{
    reveal(eval_index);
    reveal(eval_expr);
    lemma_ensues_itself(env);
    match expr {
        ExprModel::Index { base, subscript, .. } => {
            lemma_eval_expr_ensues(env, *base, depth);
            let b = eval_expr(env, *base, depth);
            match b.result {
                Ok(Flow::Continue(_)) => {
                    lemma_eval_expr_ensues(b.env, *subscript, depth);
                    lemma_ensues_on(env, b.env, eval_expr(b.env, *subscript, depth).env);
                },
                _ => {},
            }
        },
        _ => {},
    }
}


/// Whatever a run yields, the environment it leaves ensues from the one it
/// found: a session stays fit for the next source text, whether this one
/// succeeded or failed.
pub proof fn lemma_run_ensues(input: Seq<u8>, st: State, env: EnvModel, last: ValueModel)
    ensures
        ensues(env, run(input, st, env, last).env),
    decreases st.left(input),
{
    lemma_ensues_itself(env);
    let parsed = grammar::node(input, st);
    match parsed.value {
        Ok(Some(node)) => {
            lemma_eval_node_ensues(env, node, env.call_depth as nat);
            let o = eval_node(env, node, env.call_depth as nat);
            match o.result {
                Ok(Flow::Continue(v)) => {
                    if parsed.state.left(input) < st.left(input) {
                        lemma_run_ensues(input, parsed.state, o.env, v);
                        lemma_ensues_on(env, o.env, run(input, parsed.state, o.env, v).env);
                    }
                },
                _ => {},
            }
        },
        _ => {},
    }
}

} // verus!
