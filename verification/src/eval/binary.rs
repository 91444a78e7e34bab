//! The binary operators.
//!
//! `+`, `-` and `*` on integers wrap around at 32 bits. `/` truncates
//! toward zero; where the divisor is zero or the quotient is no 32-bit
//! integer, the division is an error like any operator that is not defined
//! for its operands.

use crate::eval::error::{Error, ErrorModel};
use crate::eval::value::{
    lemma_values_model_push,
    value_eq,
    values_model,
    Key,
    Value,
    ValueModel,
};
use crate::parse::ast::BinaryOp;
use std::rc::Rc;
use vstd::prelude::*;
use vstd::string::*;
use vstd::wrapping::i32_specs::{wrapping_add, wrapping_mul, wrapping_sub};

verus! {

/// The model of what an operation yields.
pub open spec fn value_result(r: Result<Value, Error>) -> Result<ValueModel, ErrorModel> {
    match r {
        Ok(v) => Ok(v.model()),
        Err(e) => Err(e.model()),
    }
}

/// `left op right` on integers.
pub open spec fn int_binary(pos: usize, left: i32, op: BinaryOp, right: i32) -> Result<
    ValueModel,
    ErrorModel,
> {
    match op {
        BinaryOp::Add => Ok(ValueModel::Int(wrapping_add(left, right))),
        BinaryOp::Sub => Ok(ValueModel::Int(wrapping_sub(left, right))),
        BinaryOp::Mul => Ok(ValueModel::Int(wrapping_mul(left, right))),
        BinaryOp::Div => match left.checked_div(right) {
            Some(q) => Ok(ValueModel::Int(q)),
            None => Err(
                ErrorModel::Binary {
                    pos,
                    left: ValueModel::Int(left),
                    op,
                    right: ValueModel::Int(right),
                },
            ),
        },
        BinaryOp::Lt => Ok(ValueModel::Bool(left < right)),
        BinaryOp::Le => Ok(ValueModel::Bool(left <= right)),
        BinaryOp::Gt => Ok(ValueModel::Bool(left > right)),
        BinaryOp::Ge => Ok(ValueModel::Bool(left >= right)),
        BinaryOp::Eq => Ok(ValueModel::Bool(left == right)),
        BinaryOp::Ne => Ok(ValueModel::Bool(left != right)),
    }
}

/// `left op right`: integers have every operator; booleans, text,
/// sequences and maps have `==` and `!=`; text and sequences also have
/// `+`, which concatenates. Everything else is an error that carries both
/// operands.
pub open spec fn binary(pos: usize, left: ValueModel, op: BinaryOp, right: ValueModel) -> Result<
    ValueModel,
    ErrorModel,
> {
    let undefined = Err(ErrorModel::Binary { pos, left, op, right });
    match (left, right) {
        (ValueModel::Int(l), ValueModel::Int(r)) => int_binary(pos, l, op, r),
        (ValueModel::Bool(l), ValueModel::Bool(r)) => match op {
            BinaryOp::Eq => Ok(ValueModel::Bool(l == r)),
            BinaryOp::Ne => Ok(ValueModel::Bool(l != r)),
            _ => undefined,
        },
        (ValueModel::Str(l), ValueModel::Str(r)) => match op {
            BinaryOp::Add => Ok(ValueModel::Str(l + r)),
            BinaryOp::Eq => Ok(ValueModel::Bool(l == r)),
            BinaryOp::Ne => Ok(ValueModel::Bool(l != r)),
            _ => undefined,
        },
        (ValueModel::Sequence(l), ValueModel::Sequence(r)) => match op {
            BinaryOp::Add => Ok(ValueModel::Sequence(l + r)),
            BinaryOp::Eq => Ok(ValueModel::Bool(value_eq(left, right))),
            BinaryOp::Ne => Ok(ValueModel::Bool(!value_eq(left, right))),
            _ => undefined,
        },
        (ValueModel::Mapping(_), ValueModel::Mapping(_)) => match op {
            BinaryOp::Eq => Ok(ValueModel::Bool(value_eq(left, right))),
            BinaryOp::Ne => Ok(ValueModel::Bool(!value_eq(left, right))),
            _ => undefined,
        },
        _ => undefined,
    }
}

/// Evaluates `left op right`.
pub fn eval(pos: usize, left: Value, op: BinaryOp, right: Value) -> (r: Result<Value, Error>)
    ensures
        value_result(r) == binary(pos, left.model(), op, right.model()),
{
    match (left, right) {
        (Value::Int(left), Value::Int(right)) => int_(pos, left, op, right),
        (Value::Bool(left), Value::Bool(right)) => bool_(pos, left, op, right),
        (Value::Str(left), Value::Str(right)) => str_(pos, left, op, right),
        (Value::Sequence(left), Value::Sequence(right)) => seq_(pos, left, op, right),
        (Value::Mapping(left), Value::Mapping(right)) => map_(pos, left, op, right),
        (left, right) => Err(Error::Binary { pos, left, op, right }),
    }
}

/// Evaluates `left op right` on integers.
pub fn int_(pos: usize, left: i32, op: BinaryOp, right: i32) -> (r: Result<Value, Error>)
    ensures
        value_result(r) == int_binary(pos, left, op, right),
{
    match op {
        BinaryOp::Add => Ok(Value::Int(left.wrapping_add(right))),
        BinaryOp::Sub => Ok(Value::Int(left.wrapping_sub(right))),
        BinaryOp::Mul => Ok(Value::Int(left.wrapping_mul(right))),
        BinaryOp::Div => match left.checked_div(right) {
            Some(q) => Ok(Value::Int(q)),
            None => Err(Error::Binary { pos, left: Value::Int(left), op, right: Value::Int(right) }),
        },
        BinaryOp::Lt => Ok(Value::Bool(left < right)),
        BinaryOp::Le => Ok(Value::Bool(left <= right)),
        BinaryOp::Gt => Ok(Value::Bool(left > right)),
        BinaryOp::Ge => Ok(Value::Bool(left >= right)),
        BinaryOp::Eq => Ok(Value::Bool(left == right)),
        BinaryOp::Ne => Ok(Value::Bool(left != right)),
    }
}

/// Evaluates `left op right` on booleans.
pub fn bool_(pos: usize, left: bool, op: BinaryOp, right: bool) -> (r: Result<Value, Error>)
    ensures
        value_result(r) == binary(pos, ValueModel::Bool(left), op, ValueModel::Bool(right)),
{
    match op {
        BinaryOp::Eq => Ok(Value::Bool(left == right)),
        BinaryOp::Ne => Ok(Value::Bool(left != right)),
        _ => Err(Error::Binary { pos, left: Value::Bool(left), op, right: Value::Bool(right) }),
    }
}

/// Evaluates `left op right` on text.
pub fn str_(pos: usize, left: Rc<String>, op: BinaryOp, right: Rc<String>) -> (r: Result<
    Value,
    Error,
>)
    ensures
        value_result(r) == binary(pos, ValueModel::Str(left@), op, ValueModel::Str(right@)),
{
    match op {
        BinaryOp::Add => {
            let mut new_str = String::new();
            new_str.append(left.as_str());
            new_str.append(right.as_str());
            assert(new_str@ =~= left@ + right@);
            Ok(Value::Str(Rc::new(new_str)))
        },
        BinaryOp::Eq => Ok(Value::Bool(*left == *right)),
        BinaryOp::Ne => Ok(Value::Bool(!(*left == *right))),
        _ => Err(Error::Binary { pos, left: Value::Str(left), op, right: Value::Str(right) }),
    }
}

/// The values of `left` followed by those of `right`, over the same
/// storage.
pub fn concat(left: &Vec<Value>, right: &Vec<Value>) -> (r: Vec<Value>)
    ensures
        values_model(r@) == values_model(left@) + values_model(right@),
{
    let mut new_seq: Vec<Value> = Vec::new();
    let mut i: usize = 0;
    while i < left.len()
        invariant
            i <= left.len(),
            values_model(new_seq@) == values_model(left@).subrange(0, i as int),
        decreases left.len() - i,
    {
        let v = left[i].clone();
        proof {
            lemma_values_model_push(new_seq@, v);
        }
        new_seq.push(v);
        assert(values_model(new_seq@) =~= values_model(left@).subrange(0, i + 1));
        i += 1;
    }
    let mut j: usize = 0;
    while j < right.len()
        invariant
            j <= right.len(),
            values_model(new_seq@) == values_model(left@) + values_model(right@).subrange(
                0,
                j as int,
            ),
        decreases right.len() - j,
    {
        let v = right[j].clone();
        proof {
            lemma_values_model_push(new_seq@, v);
        }
        new_seq.push(v);
        assert(values_model(new_seq@) =~= values_model(left@) + values_model(right@).subrange(
            0,
            j + 1,
        ));
        j += 1;
    }
    assert(values_model(new_seq@) =~= values_model(left@) + values_model(right@));
    new_seq
}

/// Evaluates `left op right` on sequences.
pub fn seq_(pos: usize, left: Rc<Vec<Value>>, op: BinaryOp, right: Rc<Vec<Value>>) -> (r: Result<
    Value,
    Error,
>)
    ensures
        value_result(r) == binary(
            pos,
            ValueModel::Sequence(values_model(left@)),
            op,
            ValueModel::Sequence(values_model(right@)),
        ),
{
    let left = Value::Sequence(left);
    let right = Value::Sequence(right);
    match op {
        BinaryOp::Add => match (&left, &right) {
            (Value::Sequence(l), Value::Sequence(r)) => Ok(Value::Sequence(Rc::new(concat(l, r)))),
            _ => Err(Error::Binary { pos, left, op, right }),
        },
        BinaryOp::Eq => Ok(Value::Bool(left.eq(&right))),
        BinaryOp::Ne => Ok(Value::Bool(!left.eq(&right))),
        _ => Err(Error::Binary { pos, left, op, right }),
    }
}

/// Evaluates `left op right` on maps.
pub fn map_(
    pos: usize,
    left: Rc<Vec<(Key, Value)>>,
    op: BinaryOp,
    right: Rc<Vec<(Key, Value)>>,
) -> (r: Result<Value, Error>)
    ensures
        value_result(r) == binary(
            pos,
            Value::Mapping(left).model(),
            op,
            Value::Mapping(right).model(),
        ),
{
    let left = Value::Mapping(left);
    let right = Value::Mapping(right);
    match op {
        BinaryOp::Eq => Ok(Value::Bool(left.eq(&right))),
        BinaryOp::Ne => Ok(Value::Bool(!left.eq(&right))),
        _ => Err(Error::Binary { pos, left, op, right }),
    }
}

} // verus!
