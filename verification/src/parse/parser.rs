//! The parser: statements and the pieces that every rule uses.

pub mod expr;

use crate::lex::lexer::{lemma_next_progress, lemma_peek_progress, Lexer, State};
use crate::lex::token::Kind;
use crate::parse::ast::{
    entries_model,
    exprs_model,
    idents_model,
    Block,
    BlockModel,
    Closure,
    Expr,
    ExprModel,
    FnModel,
    Ident,
    IdentModel,
    If,
    Let,
    Node,
    Return,
    Stmt,
    StmtModel,
};
use crate::parse::error::{Error, Expected, Incomplete, Mismatch};
use crate::parse::grammar;
use crate::parse::grammar::Parsed;
use std::rc::Rc;
use vstd::prelude::*;

verus! {

/// The model of a parse that yields an expression.
pub open spec fn expr_result(r: Result<Expr, Error>) -> Result<ExprModel, Error> {
    match r {
        Ok(e) => Ok(e.model()),
        Err(e) => Err(e),
    }
}

/// The model of a parse that yields a statement.
pub open spec fn stmt_result(r: Result<Stmt, Error>) -> Result<StmtModel, Error> {
    match r {
        Ok(s) => Ok(s.model()),
        Err(e) => Err(e),
    }
}

/// The model of a parse that yields an identifier.
pub open spec fn ident_result(r: Result<Ident, Error>) -> Result<IdentModel, Error> {
    match r {
        Ok(i) => Ok(i.model()),
        Err(e) => Err(e),
    }
}

/// The model of a parse that yields a function expression.
pub open spec fn function_result(r: Result<Closure, Error>) -> Result<FnModel, Error> {
    match r {
        Ok(f) => Ok(f.model()),
        Err(e) => Err(e),
    }
}

/// The model of a parse that yields a conditional.
pub open spec fn if_result(r: Result<If, Error>) -> Result<ExprModel, Error> {
    match r {
        Ok(e) => Ok(Expr::If(Box::new(e)).model()),
        Err(e) => Err(e),
    }
}

/// The model of a parse that yields a block.
pub open spec fn block_result(r: Result<Block, Error>) -> Result<BlockModel, Error> {
    match r {
        Ok(b) => Ok(b.model()),
        Err(e) => Err(e),
    }
}

/// The model of a parse that yields a list of expressions.
pub open spec fn exprs_result(r: Result<Vec<Expr>, Error>) -> Result<Seq<ExprModel>, Error> {
    match r {
        Ok(v) => Ok(exprs_model(v@)),
        Err(e) => Err(e),
    }
}

/// The model of a parse that yields an entry of a map literal.
pub open spec fn entry_result(r: Result<(Expr, Expr), Error>) -> Result<
    (ExprModel, ExprModel),
    Error,
> {
    match r {
        Ok(e) => Ok((e.0.model(), e.1.model())),
        Err(e) => Err(e),
    }
}

/// The model of a parse that yields the entries of a map literal.
pub open spec fn entries_result(r: Result<Vec<(Expr, Expr)>, Error>) -> Result<
    Seq<(ExprModel, ExprModel)>,
    Error,
> {
    match r {
        Ok(v) => Ok(entries_model(v@)),
        Err(e) => Err(e),
    }
}

/// The model of a parse that yields a list of identifiers.
pub open spec fn idents_result(r: Result<Vec<Ident>, Error>) -> Result<Seq<IdentModel>, Error> {
    match r {
        Ok(v) => Ok(idents_model(v@)),
        Err(e) => Err(e),
    }
}

/// A parser over the tokens of a lexer.
pub struct Parser<'a> {
    pub lexer: Lexer<'a>,
}

impl<'a> Parser<'a> {
    /// The bytes that are parsed.
    pub open spec fn source(&self) -> Seq<u8> {
        self.lexer.input@
    }

    /// Where the lexer stands.
    pub open spec fn state(&self) -> State {
        self.lexer.state()
    }

    /// What is left to read.
    pub open spec fn left(&self) -> nat {
        self.state().left(self.source())
    }

    /// This parser is what `before` becomes by a parse that yields `value`,
    /// and the grammar says the same in `spec`.
    pub open spec fn follows<T>(&self, before: Self, spec: Parsed<T>, value: Result<T, Error>) -> bool {
        &&& self.lexer.input == before.lexer.input
        &&& spec.value == value
        &&& spec.state == self.state()
        &&& self.left() <= before.left()
    }

    /// A parser over the tokens of `lexer`.
    pub fn new(lexer: Lexer<'a>) -> (r: Self)
        ensures
            r.lexer == lexer,
    {
        Parser { lexer }
    }

    /// Parses the next node: a statement or an expression. `None` at the
    /// end of the input.
    pub fn next(&mut self) -> (r: Option<Result<Node, Error>>)
        ensures
            final(self).follows(
                *old(self),
                grammar::node(old(self).source(), old(self).state()),
                match r {
                    None => Ok(None),
                    Some(Ok(n)) => Ok(Some(n.model())),
                    Some(Err(e)) => Err(e),
                },
            ),
            r matches Some(Ok(_)) ==> final(self).left() < old(self).left(),
        decreases old(self).left(), 3nat,
    {
        proof {
            reveal(grammar::node);
            reveal(grammar::let_stmt);
            reveal(grammar::return_stmt);
            reveal(grammar::standalone_expr);
        }
        proof {
            lemma_peek_progress(self.source(), self.state());
        }
        match self.lexer.peek() {
            None => None,
            Some(Err(e)) => {
                proof {
                    lemma_next_progress(self.source(), self.state());
                }
                let _ = self.lexer.next();
                Some(Err(Error::Lex(e)))
            },
            Some(Ok(token)) => {
                if token.kind == Kind::Let {
                    match self.parse_let_stmt() {
                        Ok(s) => Some(Ok(Node::Stmt(s))),
                        Err(e) => Some(Err(e)),
                    }
                } else if token.kind == Kind::Return {
                    match self.parse_return_stmt() {
                        Ok(s) => Some(Ok(Node::Stmt(s))),
                        Err(e) => Some(Err(e)),
                    }
                } else {
                    match self.parse_standalone_expr() {
                        Ok(e) => Some(Ok(Node::Expr(e))),
                        Err(e) => Some(Err(e)),
                    }
                }
            },
        }
    }

    /// `let <ident> = <expr>` and a `;` if one follows.
    pub fn parse_let_stmt(&mut self) -> (r: Result<Stmt, Error>)
        ensures
            final(self).follows(
                *old(self),
                grammar::let_stmt(old(self).source(), old(self).state()),
                stmt_result(r),
            ),
            r is Ok ==> final(self).left() < old(self).left(),
        decreases old(self).left(), 2nat,
    {
        proof {
            reveal(grammar::let_stmt);
            reveal(grammar::expr);
        }
        let pos = self.expect_token(Kind::Let)?;
        let ident = self.expect_ident()?;
        self.expect_token(Kind::Assign)?;
        let value = self.parse_expr()?;
        self.skip_optional_semicolon();
        Ok(Stmt::Let(Let { pos, ident, value }))
    }

    /// `return;`, or `return <expr>` and a `;` if one follows.
    pub fn parse_return_stmt(&mut self) -> (r: Result<Stmt, Error>)
        ensures
            final(self).follows(
                *old(self),
                grammar::return_stmt(old(self).source(), old(self).state()),
                stmt_result(r),
            ),
            r is Ok ==> final(self).left() < old(self).left(),
        decreases old(self).left(), 2nat,
    {
        proof {
            reveal(grammar::return_stmt);
            reveal(grammar::expr);
        }
        let pos = self.expect_token(Kind::Return)?;
        let value = if self.take_if(Kind::Semicolon) {
            None
        } else {
            let expr = self.parse_expr()?;
            self.skip_optional_semicolon();
            Some(expr)
        };
        Ok(Stmt::Return(Return { pos, value }))
    }

    /// An expression and a `;` if one follows.
    pub fn parse_standalone_expr(&mut self) -> (r: Result<Expr, Error>)
        ensures
            final(self).follows(
                *old(self),
                grammar::standalone_expr(old(self).source(), old(self).state()),
                expr_result(r),
            ),
            r is Ok ==> final(self).left() < old(self).left(),
        decreases old(self).left(), 2nat,
    {
        proof {
            reveal(grammar::standalone_expr);
            reveal(grammar::expr);
        }
        let expr = self.parse_expr()?;
        self.skip_optional_semicolon();
        Ok(expr)
    }

    /// Takes one token, which must be an identifier.
    pub fn expect_ident(&mut self) -> (r: Result<Ident, Error>)
        ensures
            final(self).follows(
                *old(self),
                grammar::expect_ident(old(self).source(), old(self).state()),
                ident_result(r),
            ),
            r is Ok ==> final(self).left() < old(self).left(),
    {
        let pos = self.lexer.pos();
        proof {
            lemma_next_progress(self.source(), self.state());
        }
        match self.lexer.next() {
            Some(Ok(tk)) => {
                if tk.kind == Kind::Ident {
                    match self.lexer.lex_atom(tk.pos) {
                        Ok(sym) => Ok(Ident { pos: tk.pos, sym: Rc::new(sym) }),
                        Err(e) => Err(Error::Lex(e)),
                    }
                } else {
                    Err(
                        Error::Mismatch(
                            Mismatch { left: tk, right: Expected::Token(Kind::Ident) },
                        ),
                    )
                }
            },
            Some(Err(err)) => Err(Error::Lex(err)),
            None => Err(
                Error::Incomplete(Incomplete { pos, expected: Expected::Token(Kind::Ident) }),
            ),
        }
    }

    /// Takes one token, which must be of kind `expected`; yields its
    /// offset.
    pub fn expect_token(&mut self, expected: Kind) -> (r: Result<usize, Error>)
        ensures
            final(self).follows(
                *old(self),
                grammar::expect_token(old(self).source(), old(self).state(), expected),
                r,
            ),
            r is Ok ==> final(self).left() < old(self).left(),
    {
        let pos = self.lexer.pos();
        proof {
            lemma_next_progress(self.source(), self.state());
        }
        match self.lexer.next() {
            Some(Ok(next_token)) => {
                if next_token.kind == expected {
                    Ok(next_token.pos)
                } else {
                    Err(
                        Error::Mismatch(
                            Mismatch { left: next_token, right: Expected::Token(expected) },
                        ),
                    )
                }
            },
            Some(Err(err)) => Err(Error::Lex(err)),
            None => Err(Error::Incomplete(Incomplete { pos, expected: Expected::Token(expected) })),
        }
    }

    /// Takes the next token if it is of kind `kind`, and says whether it
    /// did.
    pub fn take_if(&mut self, kind: Kind) -> (r: bool)
        ensures
            final(self).lexer.input == old(self).lexer.input,
            (r, final(self).state()) == grammar::take_if(old(self).source(), old(self).state(), kind),
            final(self).left() <= old(self).left(),
            r ==> final(self).left() < old(self).left(),
    {
        proof {
            lemma_peek_progress(self.source(), self.state());
            lemma_next_progress(self.source(), self.state().peek(self.source()).state);
        }
        match self.lexer.peek() {
            Some(Ok(tk)) => {
                if tk.kind == kind {
                    let _ = self.lexer.next();
                    true
                } else {
                    false
                }
            },
            _ => false,
        }
    }

    /// Takes a `;` if one is next.
    pub fn skip_optional_semicolon(&mut self)
        ensures
            final(self).lexer.input == old(self).lexer.input,
            final(self).state() == grammar::skip_optional_semicolon(
                old(self).source(),
                old(self).state(),
            ),
            final(self).left() <= old(self).left(),
    {
        let _ = self.take_if(Kind::Semicolon);
    }
}

} // verus!
