//! The syntax tree, and the mathematical model of each of its nodes.

use crate::support::share;
use std::rc::Rc;
use vstd::prelude::*;
use vstd::string::*;

verus! {

/// A top-level item or an item of a block.
#[derive(Debug)]
pub enum Node {
    Expr(Expr),
    Stmt(Stmt),
}

/// A statement.
#[derive(Debug)]
pub enum Stmt {
    /// `let <ident> = <expr>;`
    Let(Let),
    /// `return;` or `return <expr>;`
    Return(Return),
}

/// `let <ident> = <expr>;`, with the offset of the `let` keyword.
#[derive(Debug)]
pub struct Let {
    pub pos: usize,
    pub ident: Ident,
    pub value: Expr,
}

/// `return;` or `return <expr>;`, with the offset of the `return` keyword.
#[derive(Debug)]
pub struct Return {
    pub pos: usize,
    pub value: Option<Expr>,
}

/// An expression.
#[derive(Debug)]
pub enum Expr {
    Int(Int),
    Bool(Bool),
    Str(Str),
    /// `[<element>, ...]`
    Sequence(Sequence),
    /// `{<key>: <value>, ...}`
    Mapping(Mapping),
    Ident(Ident),
    /// `<base>[<subscript>]`
    Index(Box<Index>),
    /// `<op> <expr>`
    Unary(Box<Unary>),
    /// `<expr> <op> <expr>`
    Binary(Box<Binary>),
    /// `fn(<parameter>, ...) { <body> }`
    Closure(Rc<Closure>),
    /// `<target>(<arg>, ...)`
    Call(Box<Call>),
    /// `if <condition> { <consequence> } else { <alternative> }`
    If(Box<If>),
}

/// An integer literal, with the offset of its first digit.
#[derive(Debug)]
pub struct Int {
    pub pos: usize,
    pub value: i32,
}

/// `true` or `false`, with the offset of its first letter.
#[derive(Debug)]
pub struct Bool {
    pub pos: usize,
    pub value: bool,
}

/// A string literal, with the offset of its opening quotation mark.
#[derive(Debug)]
pub struct Str {
    pub pos: usize,
    pub value: Rc<String>,
}

/// A sequence literal, with the offset of its opening bracket.
#[derive(Debug)]
pub struct Sequence {
    pub pos: usize,
    pub elements: Vec<Expr>,
}

/// A map literal, with the offset of its opening brace.
#[derive(Debug)]
pub struct Mapping {
    pub pos: usize,
    pub entries: Vec<(Expr, Expr)>,
}

/// An identifier, with the offset of its first character.
#[derive(Debug)]
pub struct Ident {
    pub pos: usize,
    pub sym: Rc<String>,
}

/// An index expression, with the offset of its opening bracket.
#[derive(Debug)]
pub struct Index {
    pub pos: usize,
    pub base: Expr,
    pub subscript: Expr,
}

/// A unary expression, with the offset of its operator.
#[derive(Debug)]
pub struct Unary {
    pub pos: usize,
    pub op: UnaryOp,
    pub value: Expr,
}

/// The unary operators.
#[derive(Clone, Copy, Debug, PartialEq, Eq, Structural)]
pub enum UnaryOp {
    /// `-`
    Neg,
    /// `!`
    Not,
}

/// A binary expression, with the offset of its operator.
#[derive(Debug)]
pub struct Binary {
    pub pos: usize,
    pub left: Expr,
    pub op: BinaryOp,
    pub right: Expr,
}

/// The binary operators.
#[derive(Clone, Copy, Debug, PartialEq, Eq, Structural)]
pub enum BinaryOp {
    Add,
    Sub,
    Mul,
    Div,
    Eq,
    Ne,
    Lt,
    Le,
    Gt,
    Ge,
}

/// A function expression, with the offset of its `fn` keyword.
#[derive(Debug)]
pub struct Closure {
    pub pos: usize,
    pub parameters: Vec<Ident>,
    pub body: Block,
}

/// A block, with the offset of its opening brace.
#[derive(Debug)]
pub struct Block {
    pub pos: usize,
    pub nodes: Vec<Node>,
}

/// A call, with the offset of its opening parenthesis.
#[derive(Debug)]
pub struct Call {
    pub pos: usize,
    pub target: Expr,
    pub args: Vec<Expr>,
}

/// A conditional, with the offset of its `if` keyword.
#[derive(Debug)]
pub struct If {
    pub pos: usize,
    pub condition: Expr,
    pub consequence: Block,
    pub alternative: Option<Block>,
}

/// The model of an identifier: its offset and the characters of its symbol.
pub struct IdentModel {
    pub pos: usize,
    pub sym: Seq<char>,
}

/// The model of an expression.
#[allow(inconsistent_fields)]
pub enum ExprModel {
    Int { pos: usize, value: i32 },
    Bool { pos: usize, value: bool },
    Str { pos: usize, value: Seq<char> },
    Sequence { pos: usize, elements: Seq<ExprModel> },
    Mapping { pos: usize, entries: Seq<(ExprModel, ExprModel)> },
    Ident(IdentModel),
    Index { pos: usize, base: Box<ExprModel>, subscript: Box<ExprModel> },
    Unary { pos: usize, op: UnaryOp, value: Box<ExprModel> },
    Binary { pos: usize, left: Box<ExprModel>, op: BinaryOp, right: Box<ExprModel> },
    Closure(FnModel),
    Call { pos: usize, target: Box<ExprModel>, args: Seq<ExprModel> },
    If {
        pos: usize,
        condition: Box<ExprModel>,
        consequence: BlockModel,
        alternative: Option<BlockModel>,
    },
}

/// The model of a function expression.
pub struct FnModel {
    pub pos: usize,
    pub parameters: Seq<IdentModel>,
    pub body: BlockModel,
}

/// The model of a block.
pub struct BlockModel {
    pub pos: usize,
    pub nodes: Seq<NodeModel>,
}

/// The model of a node.
pub enum NodeModel {
    Expr(ExprModel),
    Stmt(StmtModel),
}

/// The model of a statement.
#[allow(inconsistent_fields)]
pub enum StmtModel {
    Let { pos: usize, ident: IdentModel, value: ExprModel },
    Return { pos: usize, value: Option<ExprModel> },
}

/// The models of the expressions of `s`, in order.
pub open spec fn exprs_model(s: Seq<Expr>) -> Seq<ExprModel>
    decreases s,
{
    Seq::new(
        s.len(),
        |i: int|
            if 0 <= i < s.len() {
                s[i].model()
            } else {
                arbitrary()
            },
    )
}

/// The models of the key and value expressions of `s`, in order.
pub open spec fn entries_model(s: Seq<(Expr, Expr)>) -> Seq<(ExprModel, ExprModel)>
    decreases s,
{
    Seq::new(
        s.len(),
        |i: int|
            if 0 <= i < s.len() {
                (s[i].0.model(), s[i].1.model())
            } else {
                arbitrary()
            },
    )
}

/// The models of the nodes of `s`, in order.
pub open spec fn nodes_model(s: Seq<Node>) -> Seq<NodeModel>
    decreases s,
{
    Seq::new(
        s.len(),
        |i: int|
            if 0 <= i < s.len() {
                s[i].model()
            } else {
                arbitrary()
            },
    )
}

/// The models of the identifiers of `s`, in order.
pub open spec fn idents_model(s: Seq<Ident>) -> Seq<IdentModel> {
    Seq::new(s.len(), |i: int| s[i].model())
}

impl Ident {
    pub open spec fn model(&self) -> IdentModel {
        IdentModel { pos: self.pos, sym: self.sym@ }
    }

    /// The identifier `sym` at `pos`.
    pub fn from_str(pos: usize, sym: &str) -> (r: Self)
        ensures
            r.model() == (IdentModel { pos, sym: sym@ }),
    {
        Ident { pos, sym: Rc::new(String::from_str(sym)) }
    }

    /// The identifier `sym` at offset 0.
    pub fn test(sym: &str) -> (r: Self)
        ensures
            r.model() == (IdentModel { pos: 0, sym: sym@ }),
    {
        Ident { pos: 0, sym: Rc::new(String::from_str(sym)) }
    }

    /// The offset of the first character.
    pub fn pos(&self) -> (r: usize)
        ensures
            r == self.pos,
    {
        self.pos
    }

    /// The symbol.
    pub fn sym(&self) -> (r: &str)
        ensures
            r@ == self.sym@,
    {
        self.sym.as_str()
    }

    /// The shared storage of the symbol.
    pub fn sym_rc_str(&self) -> (r: &Rc<String>)
        ensures
            r == self.sym,
    {
        &self.sym
    }
}

impl Clone for Ident {
    /// The same identifier over the same storage.
    fn clone(&self) -> (r: Self)
        ensures
            r == *self,
    {
        Ident { pos: self.pos, sym: share(&self.sym) }
    }
}

impl Str {
    /// The string literal `value` at `pos`.
    pub fn from_src(pos: usize, value: &str) -> (r: Self)
        ensures
            r.pos == pos,
            r.value@ == value@,
    {
        Str { pos, value: Rc::new(String::from_str(value)) }
    }

    /// The text of the literal.
    pub fn value(&self) -> (r: &str)
        ensures
            r@ == self.value@,
    {
        self.value.as_str()
    }

    /// The shared storage of the text.
    pub fn value_rc_str(&self) -> (r: &Rc<String>)
        ensures
            r == self.value,
    {
        &self.value
    }
}

impl Closure {
    pub open spec fn model(&self) -> FnModel
        decreases self,
    {
        FnModel {
            pos: self.pos,
            parameters: idents_model(self.parameters@),
            body: self.body.model(),
        }
    }
}

impl Block {
    pub open spec fn model(&self) -> BlockModel
        decreases self,
    {
        BlockModel { pos: self.pos, nodes: nodes_model(self.nodes@) }
    }
}

impl Node {
    pub open spec fn model(&self) -> NodeModel
        decreases self,
    {
        match self {
            Node::Expr(e) => NodeModel::Expr(e.model()),
            Node::Stmt(s) => NodeModel::Stmt(s.model()),
        }
    }
}

impl Stmt {
    pub open spec fn model(&self) -> StmtModel
        decreases self,
    {
        match self {
            Stmt::Let(s) => StmtModel::Let {
                pos: s.pos,
                ident: s.ident.model(),
                value: s.value.model(),
            },
            Stmt::Return(s) => StmtModel::Return {
                pos: s.pos,
                value: match s.value {
                    Some(e) => Some(e.model()),
                    None => None,
                },
            },
        }
    }
}

impl Expr {
    pub open spec fn model(&self) -> ExprModel
        decreases self,
    {
        match self {
            Expr::Int(e) => ExprModel::Int { pos: e.pos, value: e.value },
            Expr::Bool(e) => ExprModel::Bool { pos: e.pos, value: e.value },
            Expr::Str(e) => ExprModel::Str { pos: e.pos, value: e.value@ },
            Expr::Sequence(e) => ExprModel::Sequence {
                pos: e.pos,
                elements: exprs_model(e.elements@),
            },
            Expr::Mapping(e) => ExprModel::Mapping {
                pos: e.pos,
                entries: entries_model(e.entries@),
            },
            Expr::Ident(e) => ExprModel::Ident(e.model()),
            Expr::Index(e) => ExprModel::Index {
                pos: e.pos,
                base: Box::new(e.base.model()),
                subscript: Box::new(e.subscript.model()),
            },
            Expr::Unary(e) => ExprModel::Unary {
                pos: e.pos,
                op: e.op,
                value: Box::new(e.value.model()),
            },
            Expr::Binary(e) => ExprModel::Binary {
                pos: e.pos,
                left: Box::new(e.left.model()),
                op: e.op,
                right: Box::new(e.right.model()),
            },
            Expr::Closure(e) => ExprModel::Closure(e.model()),
            Expr::Call(e) => ExprModel::Call {
                pos: e.pos,
                target: Box::new(e.target.model()),
                args: exprs_model(e.args@),
            },
            Expr::If(e) => ExprModel::If {
                pos: e.pos,
                condition: Box::new(e.condition.model()),
                consequence: e.consequence.model(),
                alternative: match e.alternative {
                    Some(b) => Some(b.model()),
                    None => None,
                },
            },
        }
    }

    /// The offset this expression is reported at.
    pub fn pos(&self) -> (r: usize)
        ensures
            r == self.model().pos(),
    {
        match self {
            Expr::Int(expr) => expr.pos,
            Expr::Bool(expr) => expr.pos,
            Expr::Str(expr) => expr.pos,
            Expr::Sequence(expr) => expr.pos,
            Expr::Mapping(expr) => expr.pos,
            Expr::Ident(expr) => expr.pos,
            Expr::Index(expr) => expr.pos,
            Expr::Unary(expr) => expr.pos,
            Expr::Binary(expr) => expr.pos,
            Expr::Closure(expr) => {
                assert(expr.model().pos == expr.pos);
                expr.pos
            },
            Expr::Call(expr) => expr.pos,
            Expr::If(expr) => expr.pos,
        }
    }
}

impl ExprModel {
    /// The offset this expression is reported at.
    pub open spec fn pos(self) -> usize {
        match self {
            ExprModel::Int { pos, .. } => pos,
            ExprModel::Bool { pos, .. } => pos,
            ExprModel::Str { pos, .. } => pos,
            ExprModel::Sequence { pos, .. } => pos,
            ExprModel::Mapping { pos, .. } => pos,
            ExprModel::Ident(ident) => ident.pos,
            ExprModel::Index { pos, .. } => pos,
            ExprModel::Unary { pos, .. } => pos,
            ExprModel::Binary { pos, .. } => pos,
            ExprModel::Closure(f) => f.pos,
            ExprModel::Call { pos, .. } => pos,
            ExprModel::If { pos, .. } => pos,
        }
    }
}

/// The model of a sequence with one more expression is the model of the
/// sequence with one more model.
pub proof fn lemma_exprs_model_push(s: Seq<Expr>, e: Expr)
    ensures
        exprs_model(s.push(e)) == exprs_model(s).push(e.model()),
{
    assert(exprs_model(s.push(e)) =~= exprs_model(s).push(e.model()));
}

/// The model of a sequence with one more entry is the model of the
/// sequence with one more pair of models.
pub proof fn lemma_entries_model_push(s: Seq<(Expr, Expr)>, k: Expr, v: Expr)
    ensures
        entries_model(s.push((k, v))) == entries_model(s).push((k.model(), v.model())),
{
    assert(entries_model(s.push((k, v))) =~= entries_model(s).push((k.model(), v.model())));
}

/// The model of a sequence with one more node is the model of the sequence
/// with one more model.
pub proof fn lemma_nodes_model_push(s: Seq<Node>, n: Node)
    ensures
        nodes_model(s.push(n)) == nodes_model(s).push(n.model()),
{
    assert(nodes_model(s.push(n)) =~= nodes_model(s).push(n.model()));
}

/// The model of a sequence with one more identifier is the model of the
/// sequence with one more model.
pub proof fn lemma_idents_model_push(s: Seq<Ident>, i: Ident)
    ensures
        idents_model(s.push(i)) == idents_model(s).push(i.model()),
{
    assert(idents_model(s.push(i)) =~= idents_model(s).push(i.model()));
}

} // verus!
