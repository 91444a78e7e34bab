//! The parser: expressions, by precedence climbing.

use crate::lex::lexer::{lemma_next_progress, lemma_peek_progress};
use crate::lex::token::{Kind, Token};
use crate::parse::ast::{
    entries_model,
    exprs_model,
    idents_model,
    lemma_entries_model_push,
    lemma_exprs_model_push,
    lemma_idents_model_push,
    lemma_nodes_model_push,
    nodes_model,
    Binary,
    BinaryOp,
    Block,
    Bool,
    Call,
    Closure,
    Expr,
    Ident,
    If,
    Index,
    Int,
    Mapping,
    Node,
    Sequence,
    Str,
    Unary,
    UnaryOp,
};
use crate::parse::error::{Error, Expected, Incomplete, Mismatch};
use crate::parse::grammar;
use crate::parse::grammar::{infix_of, operator_of, rank, Precedence};
use crate::parse::parser::{
    block_result,
    entries_result,
    entry_result,
    expr_result,
    exprs_result,
    function_result,
    idents_result,
    if_result,
    Parser,
};
use std::rc::Rc;
use vstd::prelude::*;

verus! {

/// The precedence of `kind` as an infix operator, `None` where it is none.
pub fn infix_precedence(kind: &Kind) -> (r: Option<Precedence>)
    ensures
        r == infix_of(*kind),
{
    match kind {
        Kind::Lt | Kind::Le | Kind::Gt | Kind::Ge | Kind::Eq | Kind::Ne => Some(
            Precedence::Compare,
        ),
        Kind::Plus => Some(Precedence::AddSub),
        Kind::Hyphen => Some(Precedence::AddSub),
        Kind::Asterisk => Some(Precedence::MulDiv),
        Kind::Slash => Some(Precedence::MulDiv),
        Kind::LeftParen => Some(Precedence::Group),
        Kind::LeftBracket => Some(Precedence::Index),
        _ => None,
    }
}

/// The precedence as a number; no precedence at all is 0.
pub fn rank_of(p: Option<Precedence>) -> (r: u8)
    ensures
        r == rank(p),
{
    match p {
        None => 0,
        Some(Precedence::Compare) => 1,
        Some(Precedence::AddSub) => 2,
        Some(Precedence::MulDiv) => 3,
        Some(Precedence::Index) => 4,
        Some(Precedence::Group) => 5,
    }
}

/// The binary operator that `kind` writes.
pub fn binary_operator(kind: &Kind) -> (r: Option<BinaryOp>)
    ensures
        r == operator_of(*kind),
{
    match kind {
        Kind::Plus => Some(BinaryOp::Add),
        Kind::Hyphen => Some(BinaryOp::Sub),
        Kind::Asterisk => Some(BinaryOp::Mul),
        Kind::Slash => Some(BinaryOp::Div),
        Kind::Eq => Some(BinaryOp::Eq),
        Kind::Ne => Some(BinaryOp::Ne),
        Kind::Lt => Some(BinaryOp::Lt),
        Kind::Le => Some(BinaryOp::Le),
        Kind::Gt => Some(BinaryOp::Gt),
        Kind::Ge => Some(BinaryOp::Ge),
        _ => None,
    }
}

impl<'a> Parser<'a> {
    /// An expression in a context without precedence.
    pub fn parse_expr(&mut self) -> (r: Result<Expr, Error>)
        ensures
            final(self).follows(
                *old(self),
                grammar::expr(old(self).source(), old(self).state()),
                expr_result(r),
            ),
            r is Ok ==> final(self).left() < old(self).left(),
        decreases old(self).left(), 1nat,
    {
        proof {
            reveal(grammar::expr);
            reveal(grammar::expr_from);
        }
        self.parse_expr_(None)
    }

    /// An expression to the right of an operator of the given precedence.
    pub fn parse_expr_again(&mut self, precedence: Precedence) -> (r: Result<Expr, Error>)
        ensures
            final(self).follows(
                *old(self),
                grammar::expr_from(old(self).source(), old(self).state(), Some(precedence)),
                expr_result(r),
            ),
            r is Ok ==> final(self).left() < old(self).left(),
        decreases old(self).left(), 1nat,
    {
        self.parse_expr_(Some(precedence))
    }

    /// An expression in a context that binds as tightly as `precedence`.
    pub fn parse_expr_(&mut self, precedence: Option<Precedence>) -> (r: Result<Expr, Error>)
        ensures
            final(self).follows(
                *old(self),
                grammar::expr_from(old(self).source(), old(self).state(), precedence),
                expr_result(r),
            ),
            r is Ok ==> final(self).left() < old(self).left(),
        decreases old(self).left(), 0nat,
    {
        proof {
            reveal(grammar::expr_from);
            reveal(grammar::prefix);
            reveal(grammar::climb);
            reveal(grammar::infix);
        }
        let pos = self.lexer.pos();
        let ghost src = self.source();
        let ghost target = grammar::expr_from(src, self.state(), precedence);
        proof {
            lemma_next_progress(src, self.state());
        }
        let token = match self.lexer.next() {
            None => {
                return Err(Error::Incomplete(Incomplete { pos, expected: Expected::Expr }));
            },
            Some(Err(e)) => {
                return Err(Error::Lex(e));
            },
            Some(Ok(token)) => token,
        };
        let mut left = self.parse_prefix_expr(token)?;
        loop
            invariant
                self.lexer.input == old(self).lexer.input,
                src == old(self).source(),
                target == grammar::expr_from(src, old(self).state(), precedence),
                grammar::climb(src, self.state(), left.model(), precedence) == target,
                self.left() < old(self).left(),
            decreases self.left(),
        {
            proof {
                reveal(grammar::climb);
                reveal(grammar::infix);
                lemma_peek_progress(src, self.state());
                lemma_next_progress(src, self.state().peek(src).state);
            }
            match self.lexer.peek() {
                None => {
                    return Ok(left);
                },
                Some(Ok(right_token)) => {
                    if rank_of(precedence) < rank_of(infix_precedence(&right_token.kind)) {
                        left = self.parse_infix_expr(left)?;
                    } else {
                        return Ok(left);
                    }
                },
                Some(Err(e)) => {
                    let _ = self.lexer.next();
                    return Err(Error::Lex(e));
                },
            }
        }
    }

    /// The expression that starts with `token`, which was taken already.
    pub fn parse_prefix_expr(&mut self, token: Token) -> (r: Result<Expr, Error>)
        ensures
            final(self).follows(
                *old(self),
                grammar::prefix(old(self).source(), old(self).state(), token),
                expr_result(r),
            ),
        decreases old(self).left(), 5nat,
    {
        proof {
            reveal(grammar::prefix);
            reveal(grammar::expr);
            reveal(grammar::function);
            reveal(grammar::conditional);
            reveal(grammar::exprs);
            reveal(grammar::entries);
        }
        match token.kind {
            Kind::True => Ok(Expr::Bool(Bool { pos: token.pos, value: true })),
            Kind::False => Ok(Expr::Bool(Bool { pos: token.pos, value: false })),
            Kind::Int => match self.lexer.lex_int(token.pos) {
                Ok(found) => Ok(Expr::Int(Int { pos: token.pos, value: found.0 })),
                Err(e) => Err(Error::Lex(e)),
            },
            Kind::Str => match self.lexer.lex_str(token.pos) {
                Ok(value) => Ok(Expr::Str(Str { pos: token.pos, value: Rc::new(value) })),
                Err(e) => Err(Error::Lex(e)),
            },
            Kind::LeftParen => {
                let expr = self.parse_expr()?;
                self.expect_token(Kind::RightParen)?;
                Ok(expr)
            },
            Kind::Fn => match self.parse_function_expression(token.pos) {
                Ok(f) => Ok(Expr::Closure(Rc::new(f))),
                Err(e) => Err(e),
            },
            Kind::Ident => match self.lexer.lex_atom(token.pos) {
                Ok(sym) => Ok(Expr::Ident(Ident { pos: token.pos, sym: Rc::new(sym) })),
                Err(e) => Err(Error::Lex(e)),
            },
            Kind::If => match self.parse_if_expr(token.pos) {
                Ok(e) => Ok(Expr::If(Box::new(e))),
                Err(e) => Err(e),
            },
            Kind::LeftBracket => match self.parse_separated_with(Kind::RightBracket) {
                Ok(elements) => Ok(Expr::Sequence(Sequence { pos: token.pos, elements })),
                Err(e) => Err(e),
            },
            Kind::Hyphen => match self.parse_expr() {
                Ok(expr) => Ok(
                    Expr::Unary(Box::new(Unary { pos: token.pos, op: UnaryOp::Neg, value: expr })),
                ),
                Err(e) => Err(e),
            },
            Kind::Bang => match self.parse_expr() {
                Ok(expr) => Ok(
                    Expr::Unary(Box::new(Unary { pos: token.pos, op: UnaryOp::Not, value: expr })),
                ),
                Err(e) => Err(e),
            },
            Kind::LeftBrace => match self.parse_entries() {
                Ok(entries) => Ok(Expr::Mapping(Mapping { pos: token.pos, entries })),
                Err(e) => Err(e),
            },
            _ => Err(Error::Mismatch(Mismatch { left: token, right: Expected::Expr })),
        }
    }

    /// The expression that `left` and the infix part that follows make: a
    /// binary expression, a call or a subscript.
    pub fn parse_infix_expr(&mut self, left: Expr) -> (r: Result<Expr, Error>)
        ensures
            final(self).follows(
                *old(self),
                grammar::infix(old(self).source(), old(self).state(), left.model()),
                expr_result(r),
            ),
            r is Ok ==> final(self).left() < old(self).left(),
        decreases old(self).left(), 0nat,
    {
        proof {
            reveal(grammar::infix);
            reveal(grammar::expr_from);
            reveal(grammar::call);
            reveal(grammar::expr);
        }
        let pos = self.lexer.pos();
        proof {
            lemma_next_progress(self.source(), self.state());
        }
        let tk = match self.lexer.next() {
            None => {
                return Err(Error::Incomplete(Incomplete { pos, expected: Expected::Expr }));
            },
            Some(Err(e)) => {
                return Err(Error::Lex(e));
            },
            Some(Ok(tk)) => tk,
        };
        match binary_operator(&tk.kind) {
            Some(op) => {
                let right = match infix_precedence(&tk.kind) {
                    Some(precedence) => self.parse_expr_again(precedence)?,
                    None => self.parse_expr()?,
                };
                Ok(Expr::Binary(Box::new(Binary { pos: tk.pos, left, op, right })))
            },
            None => {
                if tk.kind == Kind::LeftParen {
                    self.parse_call_expr(tk.pos, left)
                } else if tk.kind == Kind::LeftBracket {
                    let subscript = self.parse_expr()?;
                    self.expect_token(Kind::RightBracket)?;
                    Ok(Expr::Index(Box::new(Index { pos: tk.pos, base: left, subscript })))
                } else {
                    Err(Error::Mismatch(Mismatch { left: tk, right: Expected::Expr }))
                }
            },
        }
    }

    /// A function expression after its `fn`, which stood at `pos`.
    pub fn parse_function_expression(&mut self, pos: usize) -> (r: Result<Closure, Error>)
        ensures
            final(self).follows(
                *old(self),
                grammar::function(old(self).source(), old(self).state(), pos),
                function_result(r),
            ),
        decreases old(self).left(), 2nat,
    {
        proof {
            reveal(grammar::function);
            reveal(grammar::block);
        }
        self.expect_token(Kind::LeftParen)?;
        let parameters = self.parse_parameters()?;
        let body = self.parse_block()?;
        Ok(Closure { pos, parameters, body })
    }

    /// A call of `f` after its `(`, which stood at `pos`.
    pub fn parse_call_expr(&mut self, pos: usize, f: Expr) -> (r: Result<Expr, Error>)
        ensures
            final(self).follows(
                *old(self),
                grammar::call(old(self).source(), old(self).state(), pos, f.model()),
                expr_result(r),
            ),
        decreases old(self).left(), 4nat,
    {
        proof {
            reveal(grammar::call);
            reveal(grammar::exprs);
        }
        let args = self.parse_separated_with(Kind::RightParen)?;
        Ok(Expr::Call(Box::new(Call { pos, target: f, args })))
    }

    /// A conditional after its `if`, which stood at `pos`.
    pub fn parse_if_expr(&mut self, pos: usize) -> (r: Result<If, Error>)
        ensures
            final(self).follows(
                *old(self),
                grammar::conditional(old(self).source(), old(self).state(), pos),
                if_result(r),
            ),
        decreases old(self).left(), 2nat,
    {
        proof {
            reveal(grammar::conditional);
            reveal(grammar::expr);
            reveal(grammar::block);
        }
        let condition = self.parse_expr()?;
        let consequence = self.parse_block()?;
        let alternative = if self.take_if(Kind::Else) {
            Some(self.parse_block()?)
        } else {
            None
        };
        Ok(If { pos, condition, consequence, alternative })
    }

    /// Expressions separated by `,` up to a token of kind `end`, which is
    /// taken too.
    pub fn parse_separated_with(&mut self, end: Kind) -> (r: Result<Vec<Expr>, Error>)
        ensures
            final(self).follows(
                *old(self),
                grammar::exprs(old(self).source(), old(self).state(), end),
                exprs_result(r),
            ),
        decreases old(self).left(), 3nat,
    {
        proof {
            reveal(grammar::exprs);
            reveal(grammar::exprs_loop);
            reveal(grammar::expr);
        }
        let ghost src = self.source();
        let ghost target = grammar::exprs(src, self.state(), end);
        if self.take_if(end) {
            let none: Vec<Expr> = Vec::new();
            assert(exprs_model(none@) =~= Seq::empty());
            return Ok(none);
        }
        let mut elements: Vec<Expr> = Vec::new();
        assert(exprs_model(elements@) =~= Seq::empty());
        loop
            invariant
                self.lexer.input == old(self).lexer.input,
                src == old(self).source(),
                target == grammar::exprs(src, old(self).state(), end),
                grammar::exprs_loop(src, self.state(), end, exprs_model(elements@)) == target,
                self.left() <= old(self).left(),
            decreases self.left(),
        {
            proof {
                reveal(grammar::exprs_loop);
                reveal(grammar::expr);
            }
            let element = self.parse_expr()?;
            proof {
                lemma_exprs_model_push(elements@, element);
                lemma_next_progress(src, self.state());
            }
            elements.push(element);
            let pos = self.lexer.pos();
            match self.lexer.next() {
                Some(Ok(tk)) => {
                    if tk.kind == Kind::Comma {
                    } else if tk.kind == end {
                        return Ok(elements);
                    } else {
                        return Err(
                            Error::Mismatch(Mismatch { left: tk, right: Expected::Token(end) }),
                        );
                    }
                },
                Some(Err(err)) => {
                    return Err(Error::Lex(err));
                },
                None => {
                    return Err(
                        Error::Incomplete(Incomplete { pos, expected: Expected::Token(end) }),
                    );
                },
            }
        }
    }

    /// One entry of a map literal: a key, a `:` and a value.
    pub fn parse_entry(&mut self) -> (r: Result<(Expr, Expr), Error>)
        ensures
            final(self).follows(
                *old(self),
                grammar::entry(old(self).source(), old(self).state()),
                entry_result(r),
            ),
            r is Ok ==> final(self).left() < old(self).left(),
        decreases old(self).left(), 2nat,
    {
        proof {
            reveal(grammar::entry);
            reveal(grammar::expr);
        }
        let key = self.parse_expr()?;
        self.expect_token(Kind::Colon)?;
        let value = self.parse_expr()?;
        Ok((key, value))
    }

    /// The entries of a map literal after its `{`, up to the `}`, which is
    /// taken too.
    pub fn parse_entries(&mut self) -> (r: Result<Vec<(Expr, Expr)>, Error>)
        ensures
            final(self).follows(
                *old(self),
                grammar::entries(old(self).source(), old(self).state()),
                entries_result(r),
            ),
        decreases old(self).left(), 4nat,
    {
        proof {
            reveal(grammar::entries);
            reveal(grammar::entries_loop);
            reveal(grammar::entry);
        }
        let ghost src = self.source();
        let ghost target = grammar::entries(src, self.state());
        if self.take_if(Kind::RightBrace) {
            let none: Vec<(Expr, Expr)> = Vec::new();
            assert(entries_model(none@) =~= Seq::empty());
            return Ok(none);
        }
        let mut elements: Vec<(Expr, Expr)> = Vec::new();
        assert(entries_model(elements@) =~= Seq::empty());
        loop
            invariant
                self.lexer.input == old(self).lexer.input,
                src == old(self).source(),
                target == grammar::entries(src, old(self).state()),
                grammar::entries_loop(src, self.state(), entries_model(elements@)) == target,
                self.left() <= old(self).left(),
            decreases self.left(),
        {
            proof {
                reveal(grammar::entries_loop);
                reveal(grammar::entry);
            }
            let element = self.parse_entry()?;
            proof {
                lemma_entries_model_push(elements@, element.0, element.1);
                lemma_next_progress(src, self.state());
            }
            elements.push(element);
            let pos = self.lexer.pos();
            match self.lexer.next() {
                Some(Ok(tk)) => {
                    if tk.kind == Kind::Comma {
                    } else if tk.kind == Kind::RightBrace {
                        return Ok(elements);
                    } else {
                        return Err(
                            Error::Mismatch(
                                Mismatch { left: tk, right: Expected::Token(Kind::RightBrace) },
                            ),
                        );
                    }
                },
                Some(Err(err)) => {
                    return Err(Error::Lex(err));
                },
                None => {
                    return Err(
                        Error::Incomplete(
                            Incomplete { pos, expected: Expected::Token(Kind::RightBrace) },
                        ),
                    );
                },
            }
        }
    }

    /// The parameters of a function after its `(`, up to the `)`, which is
    /// taken too.
    pub fn parse_parameters(&mut self) -> (r: Result<Vec<Ident>, Error>)
        ensures
            final(self).follows(
                *old(self),
                grammar::params(old(self).source(), old(self).state()),
                idents_result(r),
            ),
    {
        proof {
            reveal(grammar::params_loop);
        }
        let ghost src = self.source();
        let ghost target = grammar::params(src, self.state());
        if self.take_if(Kind::RightParen) {
            let none: Vec<Ident> = Vec::new();
            assert(idents_model(none@) =~= Seq::empty());
            return Ok(none);
        }
        let mut elements: Vec<Ident> = Vec::new();
        assert(idents_model(elements@) =~= Seq::empty());
        loop
            invariant
                self.lexer.input == old(self).lexer.input,
                src == old(self).source(),
                target == grammar::params(src, old(self).state()),
                grammar::params_loop(src, self.state(), idents_model(elements@)) == target,
                self.left() <= old(self).left(),
            decreases self.left(),
        {
            proof {
                reveal(grammar::params_loop);
            }
            let element = self.expect_ident()?;
            proof {
                lemma_idents_model_push(elements@, element);
                lemma_next_progress(src, self.state());
            }
            elements.push(element);
            let pos = self.lexer.pos();
            match self.lexer.next() {
                Some(Ok(tk)) => {
                    if tk.kind == Kind::Comma {
                    } else if tk.kind == Kind::RightParen {
                        return Ok(elements);
                    } else {
                        return Err(
                            Error::Mismatch(
                                Mismatch { left: tk, right: Expected::Token(Kind::RightParen) },
                            ),
                        );
                    }
                },
                Some(Err(err)) => {
                    return Err(Error::Lex(err));
                },
                None => {
                    return Err(
                        Error::Incomplete(
                            Incomplete { pos, expected: Expected::Token(Kind::RightParen) },
                        ),
                    );
                },
            }
        }
    }

    /// A block: `{`, nodes, `}`.
    pub fn parse_block(&mut self) -> (r: Result<Block, Error>)
        ensures
            final(self).follows(
                *old(self),
                grammar::block(old(self).source(), old(self).state()),
                block_result(r),
            ),
            r is Ok ==> final(self).left() < old(self).left(),
        decreases old(self).left(), 0nat,
    {
        proof {
            reveal(grammar::block);
            reveal(grammar::block_loop);
            reveal(grammar::node);
        }
        let ghost src = self.source();
        let ghost target = grammar::block(src, self.state());
        let pos = self.expect_token(Kind::LeftBrace)?;
        let mut nodes: Vec<Node> = Vec::new();
        assert(nodes_model(nodes@) =~= Seq::empty());
        loop
            invariant
                self.lexer.input == old(self).lexer.input,
                src == old(self).source(),
                target == grammar::block(src, old(self).state()),
                grammar::block_loop(src, self.state(), pos, nodes_model(nodes@)) == target,
                self.left() < old(self).left(),
            decreases self.left(),
        {
            let at = self.lexer.pos();
            proof {
                reveal(grammar::block_loop);
                reveal(grammar::node);
                lemma_peek_progress(src, self.state());
                lemma_next_progress(src, self.state().peek(src).state);
            }
            match self.lexer.peek() {
                None => {
                    return Err(
                        Error::Incomplete(
                            Incomplete { pos: at, expected: Expected::Token(Kind::RightBrace) },
                        ),
                    );
                },
                Some(Err(e)) => {
                    let _ = self.lexer.next();
                    return Err(Error::Lex(e));
                },
                Some(Ok(tk)) => {
                    if tk.kind == Kind::RightBrace {
                        let _ = self.lexer.next();
                        return Ok(Block { pos, nodes });
                    }
                    let item = self.next();
                    match item.unwrap() {
                        Ok(node) => {
                            proof {
                                lemma_nodes_model_push(nodes@, node);
                            }
                            nodes.push(node);
                        },
                        Err(e) => {
                            return Err(e);
                        },
                    }
                },
            }
        }
    }
}

} // verus!
