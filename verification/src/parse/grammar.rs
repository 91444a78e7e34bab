//! The grammar, as functions from a lexer state to what is parsed and the
//! state behind it.
//!
//! An expression is a prefix expression followed by any number of infix
//! parts whose operator binds tighter than the context asks for; calls and
//! subscripts bind tightest, then `*` `/`, then `+` `-`, then comparisons.

use crate::lex::lexer::{atom_at, int_at, lemma_next_progress, lemma_peek_progress, str_at, State};
use crate::lex::token::{Kind, Token};
use crate::parse::ast::{
    BinaryOp,
    BlockModel,
    ExprModel,
    FnModel,
    IdentModel,
    NodeModel,
    StmtModel,
    UnaryOp,
};
use crate::parse::error::{Error, Expected, Incomplete, Mismatch};
use vstd::prelude::*;

verus! {

/// What a parse yields, and where it leaves the lexer.
pub struct Parsed<T> {
    pub value: Result<T, Error>,
    pub state: State,
}

/// How tightly an infix operator binds, loosest first.
#[derive(Clone, Copy, Debug, PartialEq, Eq, Structural)]
pub enum Precedence {
    Compare,
    AddSub,
    MulDiv,
    Index,
    Group,
}

/// The precedence as a number; no precedence at all is 0.
pub open spec fn rank(p: Option<Precedence>) -> nat {
    match p {
        None => 0,
        Some(Precedence::Compare) => 1,
        Some(Precedence::AddSub) => 2,
        Some(Precedence::MulDiv) => 3,
        Some(Precedence::Index) => 4,
        Some(Precedence::Group) => 5,
    }
}

/// The precedence of `kind` as an infix operator, `None` where it is none.
pub open spec fn infix_of(kind: Kind) -> Option<Precedence> {
    match kind {
        Kind::Lt | Kind::Le | Kind::Gt | Kind::Ge | Kind::Eq | Kind::Ne => Some(
            Precedence::Compare,
        ),
        Kind::Plus | Kind::Hyphen => Some(Precedence::AddSub),
        Kind::Asterisk | Kind::Slash => Some(Precedence::MulDiv),
        Kind::LeftParen => Some(Precedence::Group),
        Kind::LeftBracket => Some(Precedence::Index),
        _ => None,
    }
}

/// The binary operator that `kind` writes.
pub open spec fn operator_of(kind: Kind) -> Option<BinaryOp> {
    match kind {
        Kind::Plus => Some(BinaryOp::Add),
        Kind::Hyphen => Some(BinaryOp::Sub),
        Kind::Asterisk => Some(BinaryOp::Mul),
        Kind::Slash => Some(BinaryOp::Div),
        Kind::Eq => Some(BinaryOp::Eq),
        Kind::Ne => Some(BinaryOp::Ne),
        Kind::Lt => Some(BinaryOp::Lt),
        Kind::Le => Some(BinaryOp::Le),
        Kind::Gt => Some(BinaryOp::Gt),
        Kind::Ge => Some(BinaryOp::Ge),
        _ => None,
    }
}

/// `parsed`, which never leaves more to read than `from` did. The
/// functions below say so of every parse that another follows, which makes
/// their recursion well-founded. It changes no parse: every rule keeps
/// within what was left to read, as the lemmas on progress show.
pub open spec fn held<T>(input: Seq<u8>, from: State, parsed: Parsed<T>) -> Parsed<T> {
    if parsed.state.left(input) <= from.left(input) {
        parsed
    } else {
        Parsed { value: parsed.value, state: from }
    }
}

/// The input ended at the cursor of `st`, where `expected` should follow.
pub open spec fn incomplete(st: State, expected: Expected) -> Error {
    Error::Incomplete(Incomplete { pos: st.cursor as usize, expected })
}

/// Takes one token, which must be of kind `expected`; yields its offset.
pub open spec fn expect_token(input: Seq<u8>, st: State, expected: Kind) -> Parsed<usize> {
    let step = st.next(input);
    Parsed {
        value: match step.item {
            Some(Ok(tk)) => if tk.kind == expected {
                Ok(tk.pos)
            } else {
                Err(Error::Mismatch(Mismatch { left: tk, right: Expected::Token(expected) }))
            },
            Some(Err(e)) => Err(Error::Lex(e)),
            None => Err(incomplete(st, Expected::Token(expected))),
        },
        state: step.state,
    }
}

/// The identifier that the token `tk` stands for.
pub open spec fn ident_of(input: Seq<u8>, tk: Token) -> Result<IdentModel, Error> {
    match atom_at(input, tk.pos as int) {
        Ok(sym) => Ok(IdentModel { pos: tk.pos, sym }),
        Err(e) => Err(Error::Lex(e)),
    }
}

/// Takes one token, which must be an identifier.
pub open spec fn expect_ident(input: Seq<u8>, st: State) -> Parsed<IdentModel> {
    let step = st.next(input);
    Parsed {
        value: match step.item {
            Some(Ok(tk)) => if tk.kind == Kind::Ident {
                ident_of(input, tk)
            } else {
                Err(Error::Mismatch(Mismatch { left: tk, right: Expected::Token(Kind::Ident) }))
            },
            Some(Err(e)) => Err(Error::Lex(e)),
            None => Err(incomplete(st, Expected::Token(Kind::Ident))),
        },
        state: step.state,
    }
}

/// Whether the next token is of kind `kind`, and the state after the look.
pub open spec fn next_is(input: Seq<u8>, st: State, kind: Kind) -> bool {
    st.peek(input).item matches Some(Ok(tk)) && tk.kind == kind
}

/// Takes the next token if it is of kind `kind`: whether it was taken, and
/// the state behind it.
pub open spec fn take_if(input: Seq<u8>, st: State, kind: Kind) -> (bool, State) {
    let looked = st.peek(input).state;
    if next_is(input, st, kind) {
        (true, looked.next(input).state)
    } else {
        (false, looked)
    }
}

/// Takes a `;` if one is next.
pub open spec fn skip_optional_semicolon(input: Seq<u8>, st: State) -> State {
    take_if(input, st, Kind::Semicolon).1
}

/// The parameters of a function after its `(`: identifiers separated by
/// `,` up to the `)`, `acc` being those read so far.
#[verifier::opaque]
pub open spec fn params_loop(input: Seq<u8>, st: State, acc: Seq<IdentModel>) -> Parsed<
    Seq<IdentModel>,
>
    decreases st.left(input),
{
    let ident = expect_ident(input, st);
    match ident.value {
        Err(e) => Parsed { value: Err(e), state: ident.state },
        Ok(i) => {
            let step = ident.state.next(input);
            match step.item {
                Some(Ok(tk)) => if tk.kind == Kind::Comma {
                    proof {
                        lemma_next_progress(input, st);
                        lemma_next_progress(input, ident.state);
                    }
                    params_loop(input, step.state, acc.push(i))
                } else if tk.kind == Kind::RightParen {
                    Parsed { value: Ok(acc.push(i)), state: step.state }
                } else {
                    Parsed {
                        value: Err(
                            Error::Mismatch(
                                Mismatch { left: tk, right: Expected::Token(Kind::RightParen) },
                            ),
                        ),
                        state: step.state,
                    }
                },
                Some(Err(e)) => Parsed { value: Err(Error::Lex(e)), state: step.state },
                None => Parsed {
                    value: Err(incomplete(ident.state, Expected::Token(Kind::RightParen))),
                    state: step.state,
                },
            }
        },
    }
}

/// The parameters of a function after its `(`.
pub open spec fn params(input: Seq<u8>, st: State) -> Parsed<Seq<IdentModel>> {
    let taken = take_if(input, st, Kind::RightParen);
    if taken.0 {
        Parsed { value: Ok(Seq::empty()), state: taken.1 }
    } else {
        params_loop(input, taken.1, Seq::empty())
    }
}

/// An expression in a context that binds as tightly as `prec`.
#[verifier::opaque]
pub open spec fn expr_from(input: Seq<u8>, st: State, prec: Option<Precedence>) -> Parsed<
    ExprModel,
>
    decreases st.left(input), 0nat,
{
    let step = st.next(input);
    match step.item {
        None => Parsed { value: Err(incomplete(st, Expected::Expr)), state: step.state },
        Some(Err(e)) => Parsed { value: Err(Error::Lex(e)), state: step.state },
        Some(Ok(token)) => {
            proof {
                lemma_next_progress(input, st);
            }
            let first = held(input, step.state, prefix(input, step.state, token));
            match first.value {
                Err(e) => Parsed { value: Err(e), state: first.state },
                Ok(left) => climb(input, first.state, left, prec),
            }
        },
    }
}

/// The expression that `left` grows into by the infix parts that follow
/// and bind tighter than `prec`.
#[verifier::opaque]
pub open spec fn climb(input: Seq<u8>, st: State, left: ExprModel, prec: Option<Precedence>) -> Parsed<
    ExprModel,
>
    decreases st.left(input), 1nat,
{
    let looked = st.peek(input);
    match looked.item {
        None => Parsed { value: Ok(left), state: looked.state },
        Some(Err(e)) => Parsed { value: Err(Error::Lex(e)), state: looked.state.next(input).state },
        Some(Ok(tk)) => if rank(prec) < rank(infix_of(tk.kind)) {
            proof {
                lemma_peek_progress(input, st);
            }
            let grown = infix(input, looked.state, left);
            match grown.value {
                Err(e) => Parsed { value: Err(e), state: grown.state },
                Ok(next) => if grown.state.left(input) < st.left(input) {
                    climb(input, grown.state, next, prec)
                } else {
                    Parsed { value: Ok(next), state: grown.state }
                },
            }
        } else {
            Parsed { value: Ok(left), state: looked.state }
        },
    }
}

/// An expression in a context without precedence.
#[verifier::opaque]
pub open spec fn expr(input: Seq<u8>, st: State) -> Parsed<ExprModel>
    decreases st.left(input), 1nat,
{
    expr_from(input, st, None)
}

/// The expression that starts with `token`, which was taken already.
#[verifier::opaque]
pub open spec fn prefix(input: Seq<u8>, st: State, token: Token) -> Parsed<ExprModel>
    decreases st.left(input), 5nat,
{
    let pos = token.pos;
    match token.kind {
        Kind::True => Parsed { value: Ok(ExprModel::Bool { pos, value: true }), state: st },
        Kind::False => Parsed { value: Ok(ExprModel::Bool { pos, value: false }), state: st },
        Kind::Int => Parsed {
            value: match int_at(input, pos as int) {
                Ok(found) => Ok(ExprModel::Int { pos, value: found.0 }),
                Err(e) => Err(Error::Lex(e)),
            },
            state: st,
        },
        Kind::Str => Parsed {
            value: match str_at(input, pos as int) {
                Ok(found) => Ok(ExprModel::Str { pos, value: found.0 }),
                Err(e) => Err(Error::Lex(e)),
            },
            state: st,
        },
        Kind::LeftParen => {
            let inner = held(input, st, expr(input, st));
            match inner.value {
                Err(e) => Parsed { value: Err(e), state: inner.state },
                Ok(e) => {
                    let close = expect_token(input, inner.state, Kind::RightParen);
                    Parsed {
                        value: match close.value {
                            Ok(_) => Ok(e),
                            Err(err) => Err(err),
                        },
                        state: close.state,
                    }
                },
            }
        },
        Kind::Fn => {
            let f = function(input, st, pos);
            Parsed {
                value: match f.value {
                    Ok(f) => Ok(ExprModel::Closure(f)),
                    Err(e) => Err(e),
                },
                state: f.state,
            }
        },
        Kind::Ident => Parsed {
            value: match ident_of(input, token) {
                Ok(ident) => Ok(ExprModel::Ident(ident)),
                Err(e) => Err(e),
            },
            state: st,
        },
        Kind::If => conditional(input, st, pos),
        Kind::LeftBracket => {
            let list = exprs(input, st, Kind::RightBracket);
            Parsed {
                value: match list.value {
                    Ok(elements) => Ok(ExprModel::Sequence { pos, elements }),
                    Err(e) => Err(e),
                },
                state: list.state,
            }
        },
        Kind::Hyphen => {
            let inner = expr(input, st);
            Parsed {
                value: match inner.value {
                    Ok(e) => Ok(ExprModel::Unary { pos, op: UnaryOp::Neg, value: Box::new(e) }),
                    Err(e) => Err(e),
                },
                state: inner.state,
            }
        },
        Kind::Bang => {
            let inner = expr(input, st);
            Parsed {
                value: match inner.value {
                    Ok(e) => Ok(ExprModel::Unary { pos, op: UnaryOp::Not, value: Box::new(e) }),
                    Err(e) => Err(e),
                },
                state: inner.state,
            }
        },
        Kind::LeftBrace => {
            let list = entries(input, st);
            Parsed {
                value: match list.value {
                    Ok(entries) => Ok(ExprModel::Mapping { pos, entries }),
                    Err(e) => Err(e),
                },
                state: list.state,
            }
        },
        _ => Parsed {
            value: Err(Error::Mismatch(Mismatch { left: token, right: Expected::Expr })),
            state: st,
        },
    }
}

/// The expression that `left` and the infix part at `st` make: a binary
/// expression, a call or a subscript.
#[verifier::opaque]
pub open spec fn infix(input: Seq<u8>, st: State, left: ExprModel) -> Parsed<ExprModel>
    decreases st.left(input), 0nat,
{
    let step = st.next(input);
    match step.item {
        None => Parsed { value: Err(incomplete(st, Expected::Expr)), state: step.state },
        Some(Err(e)) => Parsed { value: Err(Error::Lex(e)), state: step.state },
        Some(Ok(tk)) => {
            proof {
                lemma_next_progress(input, st);
            }
            match operator_of(tk.kind) {
                Some(op) => {
                    let right = expr_from(input, step.state, infix_of(tk.kind));
                    Parsed {
                        value: match right.value {
                            Ok(r) => Ok(
                                ExprModel::Binary {
                                    pos: tk.pos,
                                    left: Box::new(left),
                                    op,
                                    right: Box::new(r),
                                },
                            ),
                            Err(e) => Err(e),
                        },
                        state: right.state,
                    }
                },
                None => if tk.kind == Kind::LeftParen {
                    call(input, step.state, tk.pos, left)
                } else if tk.kind == Kind::LeftBracket {
                    let inner = held(input, step.state, expr(input, step.state));
                    match inner.value {
                        Err(e) => Parsed { value: Err(e), state: inner.state },
                        Ok(subscript) => {
                            let close = expect_token(input, inner.state, Kind::RightBracket);
                            Parsed {
                                value: match close.value {
                                    Ok(_) => Ok(
                                        ExprModel::Index {
                                            pos: tk.pos,
                                            base: Box::new(left),
                                            subscript: Box::new(subscript),
                                        },
                                    ),
                                    Err(e) => Err(e),
                                },
                                state: close.state,
                            }
                        },
                    }
                } else {
                    Parsed {
                        value: Err(Error::Mismatch(Mismatch { left: tk, right: Expected::Expr })),
                        state: step.state,
                    }
                },
            }
        },
    }
}

/// A function expression after its `fn`, which stood at `pos`.
#[verifier::opaque]
pub open spec fn function(input: Seq<u8>, st: State, pos: usize) -> Parsed<FnModel>
    decreases st.left(input), 2nat,
{
    let open = expect_token(input, st, Kind::LeftParen);
    match open.value {
        Err(e) => Parsed { value: Err(e), state: open.state },
        Ok(_) => {
            proof {
                lemma_next_progress(input, st);
            }
            let list = held(input, open.state, params(input, open.state));
            match list.value {
                Err(e) => Parsed { value: Err(e), state: list.state },
                Ok(parameters) => {
                    let body = block(input, list.state);
                    Parsed {
                        value: match body.value {
                            Ok(body) => Ok(FnModel { pos, parameters, body }),
                            Err(e) => Err(e),
                        },
                        state: body.state,
                    }
                },
            }
        },
    }
}

/// A call of `target` after its `(`, which stood at `pos`.
#[verifier::opaque]
pub open spec fn call(input: Seq<u8>, st: State, pos: usize, target: ExprModel) -> Parsed<
    ExprModel,
>
    decreases st.left(input), 4nat,
{
    let list = exprs(input, st, Kind::RightParen);
    Parsed {
        value: match list.value {
            Ok(args) => Ok(ExprModel::Call { pos, target: Box::new(target), args }),
            Err(e) => Err(e),
        },
        state: list.state,
    }
}

/// A conditional after its `if`, which stood at `pos`.
#[verifier::opaque]
pub open spec fn conditional(input: Seq<u8>, st: State, pos: usize) -> Parsed<ExprModel>
    decreases st.left(input), 2nat,
{
    let condition = held(input, st, expr(input, st));
    match condition.value {
        Err(e) => Parsed { value: Err(e), state: condition.state },
        Ok(c) => {
            let consequence = held(input, condition.state, block(input, condition.state));
            match consequence.value {
                Err(e) => Parsed { value: Err(e), state: consequence.state },
                Ok(then) => {
                    let taken = take_if(input, consequence.state, Kind::Else);
                    if taken.0 {
                        proof {
                            lemma_peek_progress(input, consequence.state);
                            lemma_next_progress(input, consequence.state.peek(input).state);
                        }
                        let alternative = block(input, taken.1);
                        Parsed {
                            value: match alternative.value {
                                Ok(other) => Ok(
                                    ExprModel::If {
                                        pos,
                                        condition: Box::new(c),
                                        consequence: then,
                                        alternative: Some(other),
                                    },
                                ),
                                Err(e) => Err(e),
                            },
                            state: alternative.state,
                        }
                    } else {
                        Parsed {
                            value: Ok(
                                ExprModel::If {
                                    pos,
                                    condition: Box::new(c),
                                    consequence: then,
                                    alternative: None,
                                },
                            ),
                            state: taken.1,
                        }
                    }
                },
            }
        },
    }
}

/// Expressions separated by `,` up to a token of kind `end`, which is
/// taken too.
#[verifier::opaque]
pub open spec fn exprs(input: Seq<u8>, st: State, end: Kind) -> Parsed<Seq<ExprModel>>
    decreases st.left(input), 3nat,
{
    let taken = take_if(input, st, end);
    if taken.0 {
        Parsed { value: Ok(Seq::empty()), state: taken.1 }
    } else {
        proof {
            lemma_peek_progress(input, st);
        }
        exprs_loop(input, taken.1, end, Seq::empty())
    }
}

/// One expression and those that follow it up to `end`, `acc` being the
/// expressions read so far.
#[verifier::opaque]
pub open spec fn exprs_loop(input: Seq<u8>, st: State, end: Kind, acc: Seq<ExprModel>) -> Parsed<
    Seq<ExprModel>,
>
    decreases st.left(input), 2nat,
{
    let element = held(input, st, expr(input, st));
    match element.value {
        Err(e) => Parsed { value: Err(e), state: element.state },
        Ok(e) => {
            let step = element.state.next(input);
            match step.item {
                Some(Ok(tk)) => if tk.kind == Kind::Comma {
                    proof {
                        lemma_next_progress(input, element.state);
                    }
                    exprs_loop(input, step.state, end, acc.push(e))
                } else if tk.kind == end {
                    Parsed { value: Ok(acc.push(e)), state: step.state }
                } else {
                    Parsed {
                        value: Err(
                            Error::Mismatch(Mismatch { left: tk, right: Expected::Token(end) }),
                        ),
                        state: step.state,
                    }
                },
                Some(Err(e)) => Parsed { value: Err(Error::Lex(e)), state: step.state },
                None => Parsed {
                    value: Err(incomplete(element.state, Expected::Token(end))),
                    state: step.state,
                },
            }
        },
    }
}

/// The entries of a map literal after its `{`: `key: value` pairs
/// separated by `,` up to the `}`, which is taken too.
#[verifier::opaque]
pub open spec fn entries(input: Seq<u8>, st: State) -> Parsed<Seq<(ExprModel, ExprModel)>>
    decreases st.left(input), 4nat,
{
    let taken = take_if(input, st, Kind::RightBrace);
    if taken.0 {
        Parsed { value: Ok(Seq::empty()), state: taken.1 }
    } else {
        proof {
            lemma_peek_progress(input, st);
        }
        entries_loop(input, taken.1, Seq::empty())
    }
}

/// One entry: a key, a `:` and a value.
#[verifier::opaque]
pub open spec fn entry(input: Seq<u8>, st: State) -> Parsed<(ExprModel, ExprModel)>
    decreases st.left(input), 2nat,
{
    let key = held(input, st, expr(input, st));
    match key.value {
        Err(e) => Parsed { value: Err(e), state: key.state },
        Ok(k) => {
            let colon = expect_token(input, key.state, Kind::Colon);
            match colon.value {
                Err(e) => Parsed { value: Err(e), state: colon.state },
                Ok(_) => {
                    proof {
                        lemma_next_progress(input, key.state);
                    }
                    let value = expr(input, colon.state);
                    Parsed {
                        value: match value.value {
                            Ok(v) => Ok((k, v)),
                            Err(e) => Err(e),
                        },
                        state: value.state,
                    }
                },
            }
        },
    }
}

/// One entry and those that follow it up to the `}`, `acc` being the
/// entries read so far.
#[verifier::opaque]
pub open spec fn entries_loop(input: Seq<u8>, st: State, acc: Seq<(ExprModel, ExprModel)>) -> Parsed<
    Seq<(ExprModel, ExprModel)>,
>
    decreases st.left(input), 3nat,
{
    let element = held(input, st, entry(input, st));
    match element.value {
        Err(e) => Parsed { value: Err(e), state: element.state },
        Ok(e) => {
            let step = element.state.next(input);
            match step.item {
                Some(Ok(tk)) => if tk.kind == Kind::Comma {
                    proof {
                        lemma_next_progress(input, element.state);
                    }
                    entries_loop(input, step.state, acc.push(e))
                } else if tk.kind == Kind::RightBrace {
                    Parsed { value: Ok(acc.push(e)), state: step.state }
                } else {
                    Parsed {
                        value: Err(
                            Error::Mismatch(
                                Mismatch { left: tk, right: Expected::Token(Kind::RightBrace) },
                            ),
                        ),
                        state: step.state,
                    }
                },
                Some(Err(e)) => Parsed { value: Err(Error::Lex(e)), state: step.state },
                None => Parsed {
                    value: Err(incomplete(element.state, Expected::Token(Kind::RightBrace))),
                    state: step.state,
                },
            }
        },
    }
}

/// A block: `{`, nodes, `}`.
#[verifier::opaque]
pub open spec fn block(input: Seq<u8>, st: State) -> Parsed<BlockModel>
    decreases st.left(input), 0nat,
{
    let open = expect_token(input, st, Kind::LeftBrace);
    match open.value {
        Err(e) => Parsed { value: Err(e), state: open.state },
        Ok(pos) => {
            proof {
                lemma_next_progress(input, st);
            }
            block_loop(input, open.state, pos, Seq::empty())
        },
    }
}

/// The nodes of a block up to its `}`, `acc` being the nodes read so far.
#[verifier::opaque]
pub open spec fn block_loop(input: Seq<u8>, st: State, pos: usize, acc: Seq<NodeModel>) -> Parsed<
    BlockModel,
>
    decreases st.left(input), 4nat,
{
    let looked = st.peek(input);
    match looked.item {
        None => Parsed {
            value: Err(incomplete(st, Expected::Token(Kind::RightBrace))),
            state: looked.state,
        },
        Some(Err(e)) => Parsed { value: Err(Error::Lex(e)), state: looked.state.next(input).state },
        Some(Ok(tk)) => if tk.kind == Kind::RightBrace {
            Parsed {
                value: Ok(BlockModel { pos, nodes: acc }),
                state: looked.state.next(input).state,
            }
        } else {
            proof {
                lemma_peek_progress(input, st);
            }
            let item = node(input, looked.state);
            match item.value {
                Err(e) => Parsed { value: Err(e), state: item.state },
                Ok(None) => Parsed {
                    value: Err(incomplete(looked.state, Expected::Token(Kind::RightBrace))),
                    state: item.state,
                },
                Ok(Some(n)) => if item.state.left(input) < st.left(input) {
                    block_loop(input, item.state, pos, acc.push(n))
                } else {
                    Parsed {
                        value: Err(incomplete(item.state, Expected::Token(Kind::RightBrace))),
                        state: item.state,
                    }
                },
            }
        },
    }
}

/// The next node, `None` at the end of the input.
#[verifier::opaque]
pub open spec fn node(input: Seq<u8>, st: State) -> Parsed<Option<NodeModel>>
    decreases st.left(input), 3nat,
{
    let looked = st.peek(input);
    match looked.item {
        None => Parsed { value: Ok(None), state: looked.state },
        Some(Err(e)) => Parsed { value: Err(Error::Lex(e)), state: looked.state.next(input).state },
        Some(Ok(tk)) => {
            proof {
                lemma_peek_progress(input, st);
            }
            if tk.kind == Kind::Let {
                let s = let_stmt(input, looked.state);
                Parsed {
                    value: match s.value {
                        Ok(s) => Ok(Some(NodeModel::Stmt(s))),
                        Err(e) => Err(e),
                    },
                    state: s.state,
                }
            } else if tk.kind == Kind::Return {
                let s = return_stmt(input, looked.state);
                Parsed {
                    value: match s.value {
                        Ok(s) => Ok(Some(NodeModel::Stmt(s))),
                        Err(e) => Err(e),
                    },
                    state: s.state,
                }
            } else {
                let e = standalone_expr(input, looked.state);
                Parsed {
                    value: match e.value {
                        Ok(e) => Ok(Some(NodeModel::Expr(e))),
                        Err(e) => Err(e),
                    },
                    state: e.state,
                }
            }
        },
    }
}

/// `let <ident> = <expr>` and a `;` if one follows.
#[verifier::opaque]
pub open spec fn let_stmt(input: Seq<u8>, st: State) -> Parsed<StmtModel>
    decreases st.left(input), 2nat,
{
    let keyword = expect_token(input, st, Kind::Let);
    match keyword.value {
        Err(e) => Parsed { value: Err(e), state: keyword.state },
        Ok(pos) => {
            let name = expect_ident(input, keyword.state);
            match name.value {
                Err(e) => Parsed { value: Err(e), state: name.state },
                Ok(ident) => {
                    let sign = expect_token(input, name.state, Kind::Assign);
                    match sign.value {
                        Err(e) => Parsed { value: Err(e), state: sign.state },
                        Ok(_) => {
                            proof {
                                lemma_next_progress(input, st);
                                lemma_next_progress(input, keyword.state);
                                lemma_next_progress(input, name.state);
                            }
                            let value = expr(input, sign.state);
                            match value.value {
                                Err(e) => Parsed { value: Err(e), state: value.state },
                                Ok(value_expr) => Parsed {
                                    value: Ok(StmtModel::Let { pos, ident, value: value_expr }),
                                    state: skip_optional_semicolon(input, value.state),
                                },
                            }
                        },
                    }
                },
            }
        },
    }
}

/// `return;`, or `return <expr>` and a `;` if one follows.
#[verifier::opaque]
pub open spec fn return_stmt(input: Seq<u8>, st: State) -> Parsed<StmtModel>
    decreases st.left(input), 2nat,
{
    let keyword = expect_token(input, st, Kind::Return);
    match keyword.value {
        Err(e) => Parsed { value: Err(e), state: keyword.state },
        Ok(pos) => {
            let taken = take_if(input, keyword.state, Kind::Semicolon);
            if taken.0 {
                Parsed { value: Ok(StmtModel::Return { pos, value: None }), state: taken.1 }
            } else {
                proof {
                    lemma_next_progress(input, st);
                    lemma_peek_progress(input, keyword.state);
                }
                let value = expr(input, taken.1);
                match value.value {
                    Err(e) => Parsed { value: Err(e), state: value.state },
                    Ok(value_expr) => Parsed {
                        value: Ok(StmtModel::Return { pos, value: Some(value_expr) }),
                        state: skip_optional_semicolon(input, value.state),
                    },
                }
            }
        },
    }
}

/// An expression and a `;` if one follows.
#[verifier::opaque]
pub open spec fn standalone_expr(input: Seq<u8>, st: State) -> Parsed<ExprModel>
    decreases st.left(input), 2nat,
{
    let value = expr(input, st);
    match value.value {
        Err(e) => Parsed { value: Err(e), state: value.state },
        Ok(e) => Parsed { value: Ok(e), state: skip_optional_semicolon(input, value.state) },
    }
}

} // verus!
