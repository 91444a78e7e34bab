//! Lexical errors.

use vstd::prelude::*;

verus! {

/// A lexical error and the byte offset it is reported at.
#[derive(Clone, Copy, Debug, PartialEq, Eq, Structural)]
pub struct Error {
    pub pos: usize,
    pub kind: Kind,
}

/// The kinds of lexical error.
#[derive(Clone, Copy, Debug, PartialEq, Eq, Structural)]
pub enum Kind {
    /// a string literal without its closing `"`
    Quote,
    /// an integer literal that does not fit in 32 bits
    Overflow,
    /// a letter or `_` directly after the digits of an integer literal
    BadDigit,
    /// a byte that starts no token, or a string literal that is not UTF-8
    Unexpected,
}

impl Error {
    /// The text of the message for this error.
    pub open spec fn message_text(self) -> Seq<char> {
        match self.kind {
            Kind::Quote => "missing right quote for string literal"@,
            Kind::Overflow => "integer literal is too large"@,
            Kind::BadDigit => "bad digit in integer literal"@,
            Kind::Unexpected => "unexpected byte"@,
        }
    }

    /// The message for this error.
    pub fn message(&self) -> (s: &'static str)
        ensures
            s@ == self.message_text(),
    {
        match self.kind {
            Kind::Quote => "missing right quote for string literal",
            Kind::Overflow => "integer literal is too large",
            Kind::BadDigit => "bad digit in integer literal",
            Kind::Unexpected => "unexpected byte",
        }
    }
}

} // verus!
