//! Syntax errors.

use crate::lex;
use crate::lex::token::{Kind, Token};
use vstd::prelude::*;
use vstd::string::*;

verus! {

/// What went wrong while parsing.
#[derive(Clone, Copy, Debug, PartialEq, Eq, Structural)]
pub enum Error {
    /// The lexer reported an error.
    Lex(lex::error::Error),
    /// The input ended where more was expected.
    Incomplete(Incomplete),
    /// A token stood where another was expected.
    Mismatch(Mismatch),
}

/// The input ended at `pos`, where `expected` should have followed.
#[derive(Clone, Copy, Debug, PartialEq, Eq, Structural)]
pub struct Incomplete {
    pub pos: usize,
    pub expected: Expected,
}

/// The token `left` stood where `right` was expected.
#[derive(Clone, Copy, Debug, PartialEq, Eq, Structural)]
pub struct Mismatch {
    pub left: Token,
    pub right: Expected,
}

/// What the parser was looking for.
#[derive(Clone, Copy, Debug, PartialEq, Eq, Structural)]
pub enum Expected {
    /// the start of an expression
    Expr,
    /// a token of the given kind
    Token(Kind),
}

impl Expected {
    /// What was expected, as it is written in messages.
    pub open spec fn text(self) -> Seq<char> {
        match self {
            Expected::Expr => "expression"@,
            Expected::Token(kind) => kind.name_text(),
        }
    }

    /// What was expected, as it is written in messages.
    pub fn name(&self) -> (s: &'static str)
        ensures
            s@ == self.text(),
    {
        match self {
            Expected::Expr => "expression",
            Expected::Token(kind) => kind.name(),
        }
    }
}

impl Error {
    /// The byte offset this error is reported at: that of the lexical
    /// error, of the end of the input, or of the token that did not fit.
    pub open spec fn at(self) -> usize {
        match self {
            Error::Lex(error) => error.pos,
            Error::Incomplete(incomplete) => incomplete.pos,
            Error::Mismatch(mismatch) => mismatch.left.pos,
        }
    }

    /// The byte offset this error is reported at.
    pub fn pos(&self) -> (r: usize)
        ensures
            r == self.at(),
    {
        match self {
            Error::Lex(error) => error.pos,
            Error::Incomplete(incomplete) => incomplete.pos,
            Error::Mismatch(mismatch) => mismatch.left.pos,
        }
    }

    /// The text of the message for this error.
    pub open spec fn message_text(self) -> Seq<char> {
        match self {
            Error::Lex(error) => error.message_text(),
            Error::Incomplete(incomplete) => "miss "@ + incomplete.expected.text(),
            Error::Mismatch(mismatch) => "expect "@ + mismatch.right.text() + ", found "@
                + mismatch.left.text(),
        }
    }

    /// The message for this error.
    pub fn message(&self) -> (s: String)
        ensures
            s@ == self.message_text(),
    {
        match self {
            Error::Lex(error) => String::from_str(error.message()),
            Error::Incomplete(incomplete) => {
                let mut s = String::from_str("miss ");
                s.append(incomplete.expected.name());
                s
            },
            Error::Mismatch(mismatch) => {
                let mut s = String::from_str("expect ");
                s.append(mismatch.right.name());
                s.append(", found ");
                let left = mismatch.left.render();
                s.append(left.as_str());
                s
            },
        }
    }
}

} // verus!
