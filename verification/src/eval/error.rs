//! Runtime errors.

use crate::eval::render::render;
use crate::eval::value::{values_model, Value, ValueModel};
use crate::parse;
use crate::parse::ast::{BinaryOp, Ident, IdentModel, UnaryOp};
use crate::support::{decimal, decimal_text};
use vstd::prelude::*;
use vstd::string::*;

verus! {

/// What went wrong while evaluating, and the byte offset it is reported
/// at.
#[derive(Debug)]
#[allow(inconsistent_fields)]
pub enum Error {
    /// `assert_eq` was given two values that are not equal.
    AssertEq { pos: usize, left: Value, right: Value },
    /// The source could not be parsed.
    Parse(parse::error::Error),
    /// An identifier that nothing binds.
    Undefined(Ident),
    /// A value that cannot be indexed, or a subscript that it does not
    /// have.
    Index { pos: usize, base: Value, subscript: Value },
    /// A unary operator on an operand that it is not defined for.
    Unary { pos: usize, op: UnaryOp, operand: Value },
    /// A binary operator between operands that it is not defined for.
    Binary { pos: usize, left: Value, op: BinaryOp, right: Value },
    /// A call of a value that is no function.
    Call { pos: usize, target: Value, args: Vec<Value> },
    /// A call with the wrong number of arguments.
    ArgCount { pos: usize, supplied: usize, expected: usize },
    /// An argument of the wrong type.
    ArgType { pos: usize, supplied: Value, expected: &'static str },
    /// An argument of the right type that the function cannot take.
    ArgValue { pos: usize, message: &'static str },
    /// More calls running at once than the environment allows.
    CallDepth { pos: usize, limit: usize },
}

/// The model of a runtime error.
#[allow(inconsistent_fields)]
pub enum ErrorModel {
    AssertEq { pos: usize, left: ValueModel, right: ValueModel },
    Parse(parse::error::Error),
    Undefined(IdentModel),
    Index { pos: usize, base: ValueModel, subscript: ValueModel },
    Unary { pos: usize, op: UnaryOp, operand: ValueModel },
    Binary { pos: usize, left: ValueModel, op: BinaryOp, right: ValueModel },
    Call { pos: usize, target: ValueModel, args: Seq<ValueModel> },
    ArgCount { pos: usize, supplied: usize, expected: usize },
    ArgType { pos: usize, supplied: ValueModel, expected: Seq<char> },
    ArgValue { pos: usize, message: Seq<char> },
    CallDepth { pos: usize, limit: usize },
}

/// How a unary operator is written.
pub open spec fn unary_symbol(op: UnaryOp) -> Seq<char> {
    match op {
        UnaryOp::Neg => "-"@,
        UnaryOp::Not => "!"@,
    }
}

/// How a binary operator is written.
pub open spec fn binary_symbol(op: BinaryOp) -> Seq<char> {
    match op {
        BinaryOp::Add => "+"@,
        BinaryOp::Sub => "-"@,
        BinaryOp::Mul => "*"@,
        BinaryOp::Div => "/"@,
        BinaryOp::Lt => "<"@,
        BinaryOp::Le => "<="@,
        BinaryOp::Gt => ">"@,
        BinaryOp::Ge => ">="@,
        BinaryOp::Eq => "=="@,
        BinaryOp::Ne => "!="@,
    }
}

/// How a unary operator is written.
pub fn unary_text(op: UnaryOp) -> (s: &'static str)
    ensures
        s@ == unary_symbol(op),
{
    match op {
        UnaryOp::Neg => "-",
        UnaryOp::Not => "!",
    }
}

/// How a binary operator is written.
pub fn binary_text(op: BinaryOp) -> (s: &'static str)
    ensures
        s@ == binary_symbol(op),
{
    match op {
        BinaryOp::Add => "+",
        BinaryOp::Sub => "-",
        BinaryOp::Mul => "*",
        BinaryOp::Div => "/",
        BinaryOp::Lt => "<",
        BinaryOp::Le => "<=",
        BinaryOp::Gt => ">",
        BinaryOp::Ge => ">=",
        BinaryOp::Eq => "==",
        BinaryOp::Ne => "!=",
    }
}

impl ErrorModel {
    /// The byte offset this error is reported at.
    pub open spec fn pos(self) -> usize {
        match self {
            ErrorModel::AssertEq { pos, .. } => pos,
            ErrorModel::Parse(error) => error.at(),
            ErrorModel::Undefined(ident) => ident.pos,
            ErrorModel::Index { pos, .. } => pos,
            ErrorModel::Unary { pos, .. } => pos,
            ErrorModel::Binary { pos, .. } => pos,
            ErrorModel::Call { pos, .. } => pos,
            ErrorModel::ArgCount { pos, .. } => pos,
            ErrorModel::ArgType { pos, .. } => pos,
            ErrorModel::ArgValue { pos, .. } => pos,
            ErrorModel::CallDepth { pos, .. } => pos,
        }
    }

    /// The text of the message for this error.
    pub open spec fn message(self) -> Seq<char> {
        match self {
            ErrorModel::AssertEq { left, right, .. } => "assert_eq failed\n left: "@ + render(left)
                + "\nright: "@ + render(right),
            ErrorModel::Parse(error) => error.message_text(),
            ErrorModel::Undefined(ident) => "undefined identifier: "@ + ident.sym,
            ErrorModel::Index { base, subscript, .. } => "index "@ + render(base) + " with "@
                + render(subscript),
            ErrorModel::Unary { op, operand, .. } => "invalid unary operator "@ + unary_symbol(op)
                + " for "@ + render(operand),
            ErrorModel::Binary { left, op, right, .. } => "invalid binary operator "@
                + binary_symbol(op) + " between "@ + render(left) + " and "@ + render(right),
            ErrorModel::Call { target, .. } => render(target) + " is not callable"@,
            ErrorModel::ArgCount { supplied, expected, .. } => "accept arg x "@ + decimal(
                expected as nat,
            ) + ", but got "@ + decimal(supplied as nat),
            ErrorModel::ArgType { supplied, expected, .. } => "accept arg of type "@ + expected
                + ", but got "@ + render(supplied),
            ErrorModel::ArgValue { message, .. } => message,
            ErrorModel::CallDepth { limit, .. } => "more than "@ + decimal(limit as nat)
                + " calls at once"@,
        }
    }
}

impl Error {
    pub open spec fn model(&self) -> ErrorModel {
        match self {
            Error::AssertEq { pos, left, right } => ErrorModel::AssertEq {
                pos: *pos,
                left: left.model(),
                right: right.model(),
            },
            Error::Parse(error) => ErrorModel::Parse(*error),
            Error::Undefined(ident) => ErrorModel::Undefined(ident.model()),
            Error::Index { pos, base, subscript } => ErrorModel::Index {
                pos: *pos,
                base: base.model(),
                subscript: subscript.model(),
            },
            Error::Unary { pos, op, operand } => ErrorModel::Unary {
                pos: *pos,
                op: *op,
                operand: operand.model(),
            },
            Error::Binary { pos, left, op, right } => ErrorModel::Binary {
                pos: *pos,
                left: left.model(),
                op: *op,
                right: right.model(),
            },
            Error::Call { pos, target, args } => ErrorModel::Call {
                pos: *pos,
                target: target.model(),
                args: values_model(args@),
            },
            Error::ArgCount { pos, supplied, expected } => ErrorModel::ArgCount {
                pos: *pos,
                supplied: *supplied,
                expected: *expected,
            },
            Error::ArgType { pos, supplied, expected } => ErrorModel::ArgType {
                pos: *pos,
                supplied: supplied.model(),
                expected: expected@,
            },
            Error::ArgValue { pos, message } => ErrorModel::ArgValue {
                pos: *pos,
                message: message@,
            },
            Error::CallDepth { pos, limit } => ErrorModel::CallDepth { pos: *pos, limit: *limit },
        }
    }

    /// The byte offset this error is reported at.
    pub fn pos(&self) -> (r: usize)
        ensures
            r == self.model().pos(),
    {
        match self {
            Error::AssertEq { pos, .. } => *pos,
            Error::Parse(error) => error.pos(),
            Error::Undefined(ident) => ident.pos(),
            Error::Index { pos, .. } => *pos,
            Error::Unary { pos, .. } => *pos,
            Error::Binary { pos, .. } => *pos,
            Error::Call { pos, .. } => *pos,
            Error::ArgCount { pos, .. } => *pos,
            Error::ArgType { pos, .. } => *pos,
            Error::ArgValue { pos, .. } => *pos,
            Error::CallDepth { pos, .. } => *pos,
        }
    }

    /// The message for this error.
    pub fn message(&self) -> (s: String)
        ensures
            s@ == self.model().message(),
    {
        match self {
            Error::AssertEq { pos: _, left, right } => {
                let mut s = String::from_str("assert_eq failed\n left: ");
                left.render_into(&mut s);
                s.append("\nright: ");
                right.render_into(&mut s);
                s
            },
            Error::Parse(error) => error.message(),
            Error::Undefined(ident) => {
                let mut s = String::from_str("undefined identifier: ");
                s.append(ident.sym());
                s
            },
            Error::Index { pos: _, base, subscript } => {
                let mut s = String::from_str("index ");
                base.render_into(&mut s);
                s.append(" with ");
                subscript.render_into(&mut s);
                s
            },
            Error::Unary { pos: _, op, operand } => {
                let mut s = String::from_str("invalid unary operator ");
                s.append(unary_text(*op));
                s.append(" for ");
                operand.render_into(&mut s);
                s
            },
            Error::Binary { pos: _, left, op, right } => {
                let mut s = String::from_str("invalid binary operator ");
                s.append(binary_text(*op));
                s.append(" between ");
                left.render_into(&mut s);
                s.append(" and ");
                right.render_into(&mut s);
                s
            },
            Error::Call { pos: _, target, args: _ } => {
                let mut s = String::new();
                target.render_into(&mut s);
                s.append(" is not callable");
                assert(s@ =~= self.model().message());
                s
            },
            Error::ArgCount { pos: _, supplied, expected } => {
                let mut s = String::from_str("accept arg x ");
                let expected_text = decimal_text(*expected as u64);
                s.append(expected_text.as_str());
                s.append(", but got ");
                let supplied_text = decimal_text(*supplied as u64);
                s.append(supplied_text.as_str());
                s
            },
            Error::ArgType { pos: _, supplied, expected } => {
                let mut s = String::from_str("accept arg of type ");
                s.append(expected);
                s.append(", but got ");
                supplied.render_into(&mut s);
                s
            },
            Error::ArgValue { pos: _, message } => String::from_str(message),
            Error::CallDepth { pos: _, limit } => {
                let mut s = String::from_str("more than ");
                let limit_text = decimal_text(*limit as u64);
                s.append(limit_text.as_str());
                s.append(" calls at once");
                s
            },
        }
    }
}

} // verus!
