//! Tokens of the language.

use crate::support::{decimal, decimal_text};
use vstd::prelude::*;
use vstd::string::*;

verus! {

/// A token: what it is and where its first byte stands in the source.
#[derive(Clone, Copy, Debug, PartialEq, Eq, Structural)]
pub struct Token {
    pub pos: usize,
    pub kind: Kind,
}

/// The kinds of token.
#[derive(Clone, Copy, Debug, PartialEq, Eq, Structural)]
pub enum Kind {
    /// `let`
    Let,
    /// `true`
    True,
    /// `false`
    False,
    /// `fn`
    Fn,
    /// `return`
    Return,
    /// `if`
    If,
    /// `else`
    Else,
    /// an identifier such as `foobar`
    Ident,
    /// an integer literal such as `42`
    Int,
    /// a string literal such as `"hello, world"`
    Str,
    /// `,`
    Comma,
    /// `:`
    Colon,
    /// `;`
    Semicolon,
    /// `(`
    LeftParen,
    /// `)`
    RightParen,
    /// `[`
    LeftBracket,
    /// `]`
    RightBracket,
    /// `{`
    LeftBrace,
    /// `}`
    RightBrace,
    /// `+`
    Plus,
    /// `-`
    Hyphen,
    /// `*`
    Asterisk,
    /// `/`
    Slash,
    /// `=`
    Assign,
    /// `!`
    Bang,
    /// `==`
    Eq,
    /// `!=`
    Ne,
    /// `<`
    Lt,
    /// `>`
    Gt,
    /// `<=`
    Le,
    /// `>=`
    Ge,
}

impl Kind {
    /// The name of this kind, as it is written in messages.
    pub open spec fn name_text(self) -> Seq<char> {
        match self {
            Kind::Let => "Let"@,
            Kind::True => "True"@,
            Kind::False => "False"@,
            Kind::Fn => "Fn"@,
            Kind::Return => "Return"@,
            Kind::If => "If"@,
            Kind::Else => "Else"@,
            Kind::Ident => "Ident"@,
            Kind::Int => "Int"@,
            Kind::Str => "Str"@,
            Kind::Comma => "Comma"@,
            Kind::Colon => "Colon"@,
            Kind::Semicolon => "Semicolon"@,
            Kind::LeftParen => "LeftParen"@,
            Kind::RightParen => "RightParen"@,
            Kind::LeftBracket => "LeftBracket"@,
            Kind::RightBracket => "RightBracket"@,
            Kind::LeftBrace => "LeftBrace"@,
            Kind::RightBrace => "RightBrace"@,
            Kind::Plus => "Plus"@,
            Kind::Hyphen => "Hyphen"@,
            Kind::Asterisk => "Asterisk"@,
            Kind::Slash => "Slash"@,
            Kind::Assign => "Assign"@,
            Kind::Bang => "Bang"@,
            Kind::Eq => "Eq"@,
            Kind::Ne => "Ne"@,
            Kind::Lt => "Lt"@,
            Kind::Gt => "Gt"@,
            Kind::Le => "Le"@,
            Kind::Ge => "Ge"@,
        }
    }

    /// The name of this kind, as it is written in messages.
    pub fn name(&self) -> (s: &'static str)
        ensures
            s@ == self.name_text(),
    {
        match self {
            Kind::Let => "Let",
            Kind::True => "True",
            Kind::False => "False",
            Kind::Fn => "Fn",
            Kind::Return => "Return",
            Kind::If => "If",
            Kind::Else => "Else",
            Kind::Ident => "Ident",
            Kind::Int => "Int",
            Kind::Str => "Str",
            Kind::Comma => "Comma",
            Kind::Colon => "Colon",
            Kind::Semicolon => "Semicolon",
            Kind::LeftParen => "LeftParen",
            Kind::RightParen => "RightParen",
            Kind::LeftBracket => "LeftBracket",
            Kind::RightBracket => "RightBracket",
            Kind::LeftBrace => "LeftBrace",
            Kind::RightBrace => "RightBrace",
            Kind::Plus => "Plus",
            Kind::Hyphen => "Hyphen",
            Kind::Asterisk => "Asterisk",
            Kind::Slash => "Slash",
            Kind::Assign => "Assign",
            Kind::Bang => "Bang",
            Kind::Eq => "Eq",
            Kind::Ne => "Ne",
            Kind::Lt => "Lt",
            Kind::Gt => "Gt",
            Kind::Le => "Le",
            Kind::Ge => "Ge",
        }
    }
}

impl Token {
    /// This token as it is written in messages: its offset and its kind.
    pub open spec fn text(self) -> Seq<char> {
        "Token { pos: "@ + decimal(self.pos as nat) + ", kind: "@ + self.kind.name_text() + " }"@
    }

    /// This token as it is written in messages.
    pub fn render(&self) -> (s: String)
        ensures
            s@ == self.text(),
    {
        let mut s = String::from_str("Token { pos: ");
        let pos = decimal_text(self.pos as u64);
        s.append(pos.as_str());
        s.append(", kind: ");
        s.append(self.kind.name());
        s.append(" }");
        s
    }
}

} // verus!
