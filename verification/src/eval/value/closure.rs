//! Making closures: which identifiers a function body leaves free, and
//! what is captured for them.

use crate::eval::env::{Env, EnvModel};
use crate::eval::value::{
    captured_model,
    lemma_captured_model_push,
    same_text,
    Closure,
    ClosureModel,
    Value,
    ValueModel,
};
use crate::parse::ast;
use crate::parse::ast::{
    idents_model,
    lemma_idents_model_push,
    BlockModel,
    ExprModel,
    FnModel,
    Ident,
    IdentModel,
    NodeModel,
    StmtModel,
};
use crate::support::share;
use std::rc::Rc;
use vstd::prelude::*;

verus! {

/// The identifiers that `e` reads and `bound` does not hold, in the order
/// in which they are read. A function expression inside `e` contributes
/// nothing: it is analysed when it is evaluated.
pub open spec fn free_in_expr(e: ExprModel, bound: Seq<Seq<char>>) -> Seq<IdentModel>
    decreases e, 0nat,
{
    match e {
        ExprModel::Int { .. } | ExprModel::Bool { .. } | ExprModel::Str { .. } | ExprModel::Closure(
            _,
        ) => Seq::empty(),
        ExprModel::Sequence { elements, .. } => free_in_exprs(elements, 0, bound),
        ExprModel::Ident(ident) => if bound.contains(ident.sym) {
            Seq::empty()
        } else {
            seq![ident]
        },
        ExprModel::Unary { value, .. } => free_in_expr(*value, bound),
        ExprModel::Binary { left, right, .. } => free_in_expr(*left, bound) + free_in_expr(
            *right,
            bound,
        ),
        ExprModel::If { condition, consequence, alternative, .. } => free_in_expr(
            *condition,
            bound,
        ) + free_in_block(consequence, bound) + (match alternative {
            Some(block) => free_in_block(block, bound),
            None => Seq::empty(),
        }),
        ExprModel::Call { target, args, .. } => free_in_expr(*target, bound) + free_in_exprs(
            args,
            0,
            bound,
        ),
        ExprModel::Mapping { entries, .. } => free_in_entries(entries, 0, bound),
        ExprModel::Index { base, subscript, .. } => free_in_expr(*base, bound) + free_in_expr(
            *subscript,
            bound,
        ),
    }
}

/// The free identifiers of the expressions of `es` from `from` on.
pub open spec fn free_in_exprs(es: Seq<ExprModel>, from: int, bound: Seq<Seq<char>>) -> Seq<
    IdentModel,
>
    decreases es, es.len() - from,
{
    if 0 <= from < es.len() {
        free_in_expr(es[from], bound) + free_in_exprs(es, from + 1, bound)
    } else {
        Seq::empty()
    }
}

/// The free identifiers of the keys and values of `es` from `from` on.
pub open spec fn free_in_entries(
    es: Seq<(ExprModel, ExprModel)>,
    from: int,
    bound: Seq<Seq<char>>,
) -> Seq<IdentModel>
    decreases es, es.len() - from,
{
    if 0 <= from < es.len() {
        free_in_expr(es[from].0, bound) + free_in_expr(es[from].1, bound) + free_in_entries(
            es,
            from + 1,
            bound,
        )
    } else {
        Seq::empty()
    }
}

/// The free identifiers of a block. What the block binds is bound in the
/// block alone.
pub open spec fn free_in_block(block: BlockModel, bound: Seq<Seq<char>>) -> Seq<IdentModel>
    decreases block, 0nat,
{
    free_in_nodes(block.nodes, 0, bound)
}

/// What `bound` becomes behind `node`: a `let` binds its identifier for
/// the nodes that follow it.
pub open spec fn bound_after(node: NodeModel, bound: Seq<Seq<char>>) -> Seq<Seq<char>> {
    match node {
        NodeModel::Stmt(StmtModel::Let { ident, .. }) => bound.push(ident.sym),
        _ => bound,
    }
}

/// The free identifiers of one node.
pub open spec fn free_in_node(node: NodeModel, bound: Seq<Seq<char>>) -> Seq<IdentModel>
    decreases node, 0nat,
{
    match node {
        NodeModel::Expr(e) => free_in_expr(e, bound),
        NodeModel::Stmt(StmtModel::Let { value, .. }) => free_in_expr(value, bound),
        NodeModel::Stmt(StmtModel::Return { value, .. }) => match value {
            Some(e) => free_in_expr(e, bound),
            None => Seq::empty(),
        },
    }
}

/// The free identifiers of the nodes of `nodes` from `from` on.
pub open spec fn free_in_nodes(nodes: Seq<NodeModel>, from: int, bound: Seq<Seq<char>>) -> Seq<
    IdentModel,
>
    decreases nodes, nodes.len() - from,
{
    if 0 <= from < nodes.len() {
        free_in_node(nodes[from], bound) + free_in_nodes(
            nodes,
            from + 1,
            bound_after(nodes[from], bound),
        )
    } else {
        Seq::empty()
    }
}

/// The symbols of `idents`, in order.
pub open spec fn symbols(idents: Seq<IdentModel>) -> Seq<Seq<char>> {
    Seq::new(idents.len(), |i: int| idents[i].sym)
}

/// The identifiers that the body of `f` reads and that neither its
/// parameters nor its own `let` statements bind.
pub open spec fn unbounded(f: FnModel) -> Seq<IdentModel> {
    free_in_block(f.body, symbols(f.parameters))
}

/// The bindings captured for the first `upto` of `idents`: each one that
/// `env` resolves, with its value in `env`.
pub open spec fn captured_upto(idents: Seq<IdentModel>, env: EnvModel, upto: int) -> Seq<
    (IdentModel, ValueModel),
>
    decreases upto,
{
    if 0 < upto <= idents.len() {
        let before = captured_upto(idents, env, upto - 1);
        match env.get(idents[upto - 1].sym) {
            Some(v) => before.push((idents[upto - 1], v)),
            None => before,
        }
    } else {
        Seq::empty()
    }
}

/// Those of the first `upto` of `idents` that `env` does not resolve.
pub open spec fn undefined_upto(idents: Seq<IdentModel>, env: EnvModel, upto: int) -> Seq<
    IdentModel,
>
    decreases upto,
{
    if 0 < upto <= idents.len() {
        let before = undefined_upto(idents, env, upto - 1);
        match env.get(idents[upto - 1].sym) {
            Some(_) => before,
            None => before.push(idents[upto - 1]),
        }
    } else {
        Seq::empty()
    }
}

/// The closure record that evaluating the function expression `f` in `env`
/// makes: every free identifier that `env` resolves is captured with the
/// value it has now, the others are kept as undefined.
pub open spec fn new_closure(f: FnModel, env: EnvModel) -> ClosureModel {
    let free = unbounded(f);
    ClosureModel {
        id: env.fresh_id(),
        f,
        captured: captured_upto(free, env, free.len() as int),
        undefined: undefined_upto(free, env, free.len() as int),
        recursive: None,
    }
}

/// The characters of the symbols `s`.
pub open spec fn syms_model(s: Seq<Rc<String>>) -> Seq<Seq<char>> {
    Seq::new(s.len(), |i: int| s[i]@)
}

/// The state of the analysis of one function body.
pub struct AnalyzeEnv {
    /// The symbols that are bound where the analysis stands.
    pub bound: Vec<Rc<String>>,
    /// The free identifiers found so far.
    pub unbounded: Vec<Ident>,
}

impl AnalyzeEnv {
    /// The symbols that are bound where the analysis stands.
    pub open spec fn bound_model(&self) -> Seq<Seq<char>> {
        syms_model(self.bound@)
    }

    /// The free identifiers found so far.
    pub open spec fn found(&self) -> Seq<IdentModel> {
        idents_model(self.unbounded@)
    }

    /// Binds the symbol of `ident` from here on.
    pub fn create_ident(&mut self, ident: &Ident)
        ensures
            final(self).bound@ == old(self).bound@.push(ident.sym),
            final(self).unbounded == old(self).unbounded,
    {
        self.bound.push(share(&ident.sym));
    }

    /// Notes `ident` as free unless its symbol is bound.
    pub fn access_ident(&mut self, ident: &Ident)
        ensures
            final(self).bound@ == old(self).bound@,
            final(self).found() == old(self).found() + free_in_expr(
                ExprModel::Ident(ident.model()),
                old(self).bound_model(),
            ),
    {
        if !self.has_ident(ident) {
            let found = ident.clone();
            proof {
                lemma_idents_model_push(self.unbounded@, found);
            }
            self.unbounded.push(found);
            assert(self.found() =~= old(self).found() + seq![ident.model()]);
        } else {
            assert(self.found() =~= old(self).found() + Seq::<IdentModel>::empty());
        }
    }

    /// Whether the symbol of `ident` is bound.
    pub fn has_ident(&self, ident: &Ident) -> (r: bool)
        ensures
            r == self.bound_model().contains(ident.sym@),
    {
        let mut i: usize = self.bound.len();
        while i > 0
            invariant
                i <= self.bound.len(),
                forall|j: int| i <= j < self.bound.len() ==> self.bound_model()[j] != ident.sym@,
            decreases i,
        {
            i -= 1;
            if same_text(&self.bound[i], &ident.sym) {
                assert(self.bound_model()[i as int] == ident.sym@);
                return true;
            }
        }
        false
    }

    /// Walks the nodes of `block`; what it binds is forgotten at its end.
    pub fn walk_block(&mut self, block: &ast::Block)
        ensures
            final(self).bound@ == old(self).bound@,
            final(self).found() == old(self).found() + free_in_block(
                block.model(),
                old(self).bound_model(),
            ),
        decreases block, 0nat,
    {
        let mark = self.bound.len();
        let ghost nodes = block.model().nodes;
        let ghost target = old(self).found() + free_in_nodes(nodes, 0, old(self).bound_model());
        let mut i: usize = 0;
        assert(self.found() + free_in_nodes(nodes, 0, self.bound_model()) =~= target);
        while i < block.nodes.len()
            invariant
                i <= block.nodes.len(),
                nodes == block.model().nodes,
                nodes == ast::nodes_model(block.nodes@),
                mark <= self.bound.len(),
                mark == old(self).bound.len(),
                self.bound@.subrange(0, mark as int) == old(self).bound@,
                self.found() + free_in_nodes(nodes, i as int, self.bound_model()) == target,
            decreases block.nodes.len() - i,
        {
            let ghost before = self.found();
            let ghost bound = self.bound_model();
            let ghost stack = self.bound@;
            assert(nodes[i as int] == block.nodes@[i as int].model());
            match &block.nodes[i] {
                ast::Node::Expr(expr) => {
                    self.walk_expr(expr);
                    assert(nodes[i as int] == NodeModel::Expr(expr.model()));
                    assert(self.bound_model() == bound_after(nodes[i as int], bound));
                },
                ast::Node::Stmt(stmt) => {
                    self.walk_stmt(stmt);
                    assert(nodes[i as int] == NodeModel::Stmt(stmt.model()));
                    assert(self.bound_model() =~= bound_after(nodes[i as int], bound));
                },
            }
            assert(self.found() == before + free_in_node(nodes[i as int], bound));
            assert(self.found() + free_in_nodes(nodes, i + 1, self.bound_model()) =~= before
                + free_in_nodes(nodes, i as int, bound));
            assert(self.bound@.subrange(0, mark as int) =~= stack.subrange(0, mark as int));
            i += 1;
        }
        self.bound.truncate(mark);
        assert(self.bound@ =~= old(self).bound@);
        assert(self.found() =~= target);
    }

    /// Walks the expression of `stmt`; a `let` then binds its identifier.
    pub fn walk_stmt(&mut self, stmt: &ast::Stmt)
        ensures
            final(self).bound@ == match stmt {
                ast::Stmt::Let(let_) => old(self).bound@.push(let_.ident.sym),
                ast::Stmt::Return(_) => old(self).bound@,
            },
            final(self).found() == old(self).found() + free_in_node(
                NodeModel::Stmt(stmt.model()),
                old(self).bound_model(),
            ),
        decreases stmt, 1nat,
    {
        match stmt {
            ast::Stmt::Return(return_) => {
                match &return_.value {
                    Some(expr) => {
                        self.walk_expr(expr);
                    },
                    None => {
                        assert(self.found() =~= old(self).found() + Seq::<IdentModel>::empty());
                    },
                }
            },
            ast::Stmt::Let(let_) => {
                self.walk_expr(&let_.value);
                self.create_ident(&let_.ident);
            },
        }
    }

    /// Walks `expr` and notes the identifiers that it reads and that are
    /// not bound.
    pub fn walk_expr(&mut self, expr: &ast::Expr)
        ensures
            final(self).bound@ == old(self).bound@,
            final(self).found() == old(self).found() + free_in_expr(
                expr.model(),
                old(self).bound_model(),
            ),
        decreases expr, 0nat,
    {
        let ghost start = self.found();
        let ghost bound = self.bound_model();
        match expr {
            ast::Expr::Int(_) | ast::Expr::Bool(_) | ast::Expr::Str(_) | ast::Expr::Closure(
                _,
            ) => {
                assert(self.found() =~= start + Seq::<IdentModel>::empty());
            },
            ast::Expr::Sequence(seq) => {
                let ghost es = ast::exprs_model(seq.elements@);
                let ghost target = start + free_in_exprs(es, 0, bound);
                let mut i: usize = 0;
                while i < seq.elements.len()
                    invariant
                        i <= seq.elements.len(),
                        es == ast::exprs_model(seq.elements@),
                        expr is Sequence && expr->Sequence_0 == *seq,
                        self.bound@ == old(self).bound@,
                        bound == self.bound_model(),
                        self.found() + free_in_exprs(es, i as int, bound) == target,
                    decreases seq.elements.len() - i,
                {
                    let ghost before = self.found();
                    assert(decreases_to!(expr => expr->Sequence_0));
                    assert(decreases_to!(expr->Sequence_0 => expr->Sequence_0.elements));
                    assert(decreases_to!(seq.elements => seq.elements[i as int]));
                    self.walk_expr(&seq.elements[i]);
                    assert(self.found() + free_in_exprs(es, i + 1, bound) =~= before
                        + free_in_exprs(es, i as int, bound));
                    i += 1;
                }
                assert(self.found() =~= target);
            },
            ast::Expr::Ident(ident) => {
                self.access_ident(ident);
            },
            ast::Expr::Unary(unary) => {
                self.walk_expr(&unary.value);
            },
            ast::Expr::Binary(binary) => {
                self.walk_expr(&binary.left);
                self.walk_expr(&binary.right);
                assert(self.found() =~= start + (free_in_expr(binary.left.model(), bound)
                    + free_in_expr(binary.right.model(), bound)));
            },
            ast::Expr::If(if_) => {
                self.walk_expr(&if_.condition);
                self.walk_block(&if_.consequence);
                match &if_.alternative {
                    Some(alternative) => {
                        self.walk_block(alternative);
                        assert(self.found() =~= start + (free_in_expr(if_.condition.model(), bound)
                            + free_in_block(if_.consequence.model(), bound) + free_in_block(
                            alternative.model(),
                            bound,
                        )));
                    },
                    None => {
                        assert(self.found() =~= start + (free_in_expr(if_.condition.model(), bound)
                            + free_in_block(if_.consequence.model(), bound) + Seq::<
                            IdentModel,
                        >::empty()));
                    },
                }
            },
            ast::Expr::Call(call) => {
                self.walk_expr(&call.target);
                let ghost es = ast::exprs_model(call.args@);
                let ghost target = start + (free_in_expr(call.target.model(), bound)
                    + free_in_exprs(es, 0, bound));
                assert(self.found() + free_in_exprs(es, 0, bound) =~= target);
                let mut i: usize = 0;
                while i < call.args.len()
                    invariant
                        i <= call.args.len(),
                        es == ast::exprs_model(call.args@),
                        expr is Call && expr->Call_0 == *call,
                        self.bound@ == old(self).bound@,
                        bound == self.bound_model(),
                        self.found() + free_in_exprs(es, i as int, bound) == target,
                    decreases call.args.len() - i,
                {
                    let ghost before = self.found();
                    assert(decreases_to!(expr => expr->Call_0));
                    assert(decreases_to!(expr->Call_0 => expr->Call_0.args));
                    assert(decreases_to!(call.args => call.args[i as int]));
                    self.walk_expr(&call.args[i]);
                    assert(self.found() + free_in_exprs(es, i + 1, bound) =~= before
                        + free_in_exprs(es, i as int, bound));
                    i += 1;
                }
                assert(self.found() =~= target);
            },
            ast::Expr::Mapping(map) => {
                let ghost es = ast::entries_model(map.entries@);
                let ghost target = start + free_in_entries(es, 0, bound);
                let mut i: usize = 0;
                while i < map.entries.len()
                    invariant
                        i <= map.entries.len(),
                        es == ast::entries_model(map.entries@),
                        expr is Mapping && expr->Mapping_0 == *map,
                        self.bound@ == old(self).bound@,
                        bound == self.bound_model(),
                        self.found() + free_in_entries(es, i as int, bound) == target,
                    decreases map.entries.len() - i,
                {
                    let ghost before = self.found();
                    assert(decreases_to!(expr => expr->Mapping_0));
                    assert(decreases_to!(expr->Mapping_0 => expr->Mapping_0.entries));
                    assert(decreases_to!(map.entries => map.entries[i as int]));
                    assert(decreases_to!(map.entries[i as int] => map.entries[i as int].0));
                    assert(decreases_to!(map.entries[i as int] => map.entries[i as int].1));
                    self.walk_expr(&map.entries[i].0);
                    self.walk_expr(&map.entries[i].1);
                    assert(self.found() + free_in_entries(es, i + 1, bound) =~= before
                        + free_in_entries(es, i as int, bound));
                    i += 1;
                }
                assert(self.found() =~= target);
            },
            ast::Expr::Index(index) => {
                self.walk_expr(&index.base);
                self.walk_expr(&index.subscript);
                assert(self.found() =~= start + (free_in_expr(index.base.model(), bound)
                    + free_in_expr(index.subscript.model(), bound)));
            },
        }
    }
}

/// The identifiers that the body of `f` leaves free, in the order in which
/// it reads them.
pub fn analyze_unbounded(f: &ast::Closure) -> (r: Vec<Ident>)
    ensures
        idents_model(r@) == unbounded(f.model()),
{
    let mut bound: Vec<Rc<String>> = Vec::new();
    let mut i: usize = 0;
    while i < f.parameters.len()
        invariant
            i <= f.parameters.len(),
            syms_model(bound@) == symbols(idents_model(f.parameters@)).subrange(0, i as int),
        decreases f.parameters.len() - i,
    {
        let ghost before = bound@;
        bound.push(share(&f.parameters[i].sym));
        assert(idents_model(f.parameters@)[i as int].sym == f.parameters@[i as int].sym@);
        assert(syms_model(bound@) =~= syms_model(before).push(f.parameters@[i as int].sym@));
        assert(syms_model(bound@) =~= symbols(idents_model(f.parameters@)).subrange(0, i + 1));
        i += 1;
    }
    assert(syms_model(bound@) =~= symbols(idents_model(f.parameters@)));
    let mut env = AnalyzeEnv { bound, unbounded: Vec::new() };
    assert(env.found() =~= Seq::empty());
    env.walk_block(&f.body);
    assert(env.found() =~= unbounded(f.model()));
    env.unbounded
}

impl Closure {
    /// Makes the closure record for the function expression `f` in `env`.
    pub fn new(f: Rc<ast::Closure>, env: &mut Env) -> (r: Self)
        requires
            old(env).wf(),
        ensures
            final(env).wf(),
            final(env).model() == old(env).model().after_fresh_id(),
            r.model() == new_closure(f.model(), old(env).model()),
    {
        let unbounded = analyze_unbounded(&f);
        let ghost free = idents_model(unbounded@);
        let mut undefined: Vec<Ident> = Vec::new();
        let mut captured: Vec<(Ident, Value)> = Vec::new();
        assert(captured_model(captured@) =~= Seq::empty());
        assert(idents_model(undefined@) =~= Seq::empty());
        let mut i: usize = 0;
        while i < unbounded.len()
            invariant
                i <= unbounded.len(),
                free == idents_model(unbounded@),
                env.wf(),
                *env == *old(env),
                captured_model(captured@) == captured_upto(free, env.model(), i as int),
                idents_model(undefined@) == undefined_upto(free, env.model(), i as int),
            decreases unbounded.len() - i,
        {
            let ident = &unbounded[i];
            match env.get(&ident.sym) {
                Some(value) => {
                    let ident = ident.clone();
                    let value = value.clone();
                    proof {
                        lemma_captured_model_push(captured@, ident, value);
                    }
                    captured.push((ident, value));
                },
                None => {
                    let ident = ident.clone();
                    proof {
                        lemma_idents_model_push(undefined@, ident);
                    }
                    undefined.push(ident);
                },
            }
            i += 1;
        }
        let id = env.fresh_id();
        Closure { id, f, captured, undefined, recursive: None }
    }
}

} // verus!
