//! The native functions.

use crate::eval::binary::{concat, value_result};
use crate::eval::env::{Env, EnvModel};
use crate::eval::error::{Error, ErrorModel};
use crate::eval::render::render;
use crate::eval::value::{
    lemma_values_model_push,
    value_eq,
    values_model,
    variant_name,
    Builtin,
    Value,
    ValueModel,
};
use std::rc::Rc;
use vstd::prelude::*;
use vstd::string::*;
use vstd::utf8::encode_utf8;

verus! {

/// The names that the global scope binds to the native functions.
pub fn all_() -> (r: [(&'static str, Builtin); 7])
    ensures
        r[0].0@ == "len"@ && r[0].1 == Builtin::Len,
        r[1].0@ == "head"@ && r[1].1 == Builtin::Head,
        r[2].0@ == "tail"@ && r[2].1 == Builtin::Tail,
        r[3].0@ == "append"@ && r[3].1 == Builtin::Append,
        r[4].0@ == "print"@ && r[4].1 == Builtin::Print,
        r[5].0@ == "assert_eq"@ && r[5].1 == Builtin::AssertEq,
        r[6].0@ == "type"@ && r[6].1 == Builtin::Type,
{
    [
        ("len", Builtin::Len),
        ("head", Builtin::Head),
        ("tail", Builtin::Tail),
        ("append", Builtin::Append),
        ("print", Builtin::Print),
        ("assert_eq", Builtin::AssertEq),
        ("type", Builtin::Type),
    ]
}

/// The error of a call with `supplied` arguments where `expected` are
/// taken.
pub open spec fn arg_count(pos: usize, supplied: nat, expected: usize) -> ErrorModel {
    ErrorModel::ArgCount { pos, supplied: supplied as usize, expected }
}

/// `count` as an integer of the language; an error where it is too large
/// for one.
pub open spec fn count_value(pos: usize, count: nat) -> Result<ValueModel, ErrorModel> {
    if count <= i32::MAX {
        Ok(ValueModel::Int(count as i32))
    } else {
        Err(ErrorModel::ArgValue { pos, message: "call len() with more than an int can count"@ })
    }
}

/// `len(x)`: the number of bytes of the text `x` in UTF-8, of elements of
/// the sequence `x`, or of entries of the map `x`.
pub open spec fn len_of(pos: usize, args: Seq<ValueModel>) -> Result<ValueModel, ErrorModel> {
    if args.len() != 1 {
        Err(arg_count(pos, args.len(), 1))
    } else {
        match args[0] {
            ValueModel::Str(s) => count_value(pos, encode_utf8(s).len()),
            ValueModel::Sequence(s) => count_value(pos, s.len()),
            ValueModel::Mapping(m) => count_value(pos, m.len()),
            other => Err(ErrorModel::ArgType { pos, supplied: other, expected: "seq | str | map"@ }),
        }
    }
}

/// `head(x)`: the first element of the sequence `x`, which must have one.
pub open spec fn head_of(pos: usize, args: Seq<ValueModel>) -> Result<ValueModel, ErrorModel> {
    if args.len() != 1 {
        Err(arg_count(pos, args.len(), 1))
    } else {
        match args[0] {
            ValueModel::Sequence(s) => if s.len() > 0 {
                Ok(s[0])
            } else {
                Err(ErrorModel::ArgValue { pos, message: "call head() with an empty seq"@ })
            },
            other => Err(ErrorModel::ArgType { pos, supplied: other, expected: "seq"@ }),
        }
    }
}

/// `tail(x)`: the sequence `x`, which must have an element, without its
/// first one.
pub open spec fn tail_of(pos: usize, args: Seq<ValueModel>) -> Result<ValueModel, ErrorModel> {
    if args.len() != 1 {
        Err(arg_count(pos, args.len(), 1))
    } else {
        match args[0] {
            ValueModel::Sequence(s) => if s.len() > 0 {
                Ok(ValueModel::Sequence(s.subrange(1, s.len() as int)))
            } else {
                Err(ErrorModel::ArgValue { pos, message: "call tail() with an empty seq"@ })
            },
            other => Err(ErrorModel::ArgType { pos, supplied: other, expected: "Seq"@ }),
        }
    }
}

/// `append(x, y, ...)`: the sequence `x` followed by the other arguments,
/// of which there must be one at least.
pub open spec fn append_of(pos: usize, args: Seq<ValueModel>) -> Result<ValueModel, ErrorModel> {
    if args.len() < 2 {
        Err(arg_count(pos, args.len(), 2))
    } else {
        match args[0] {
            ValueModel::Sequence(s) => Ok(
                ValueModel::Sequence(s + args.subrange(1, args.len() as int)),
            ),
            other => Err(
                ErrorModel::ArgType { pos, supplied: other, expected: "append(seq, T...)"@ },
            ),
        }
    }
}

/// `assert_eq(x, y)`: nothing where `x` and `y` are equal, an error that
/// carries both where they are not.
pub open spec fn assert_eq_of(pos: usize, args: Seq<ValueModel>) -> Result<ValueModel, ErrorModel> {
    if args.len() != 2 {
        Err(arg_count(pos, args.len(), 2))
    } else if value_eq(args[0], args[1]) {
        Ok(ValueModel::Unit)
    } else {
        Err(ErrorModel::AssertEq { pos, left: args[0], right: args[1] })
    }
}

/// `type(x)`: the name of the variant of `x`.
pub open spec fn type_of(pos: usize, args: Seq<ValueModel>) -> Result<ValueModel, ErrorModel> {
    if args.len() != 1 {
        Err(arg_count(pos, args.len(), 1))
    } else {
        Ok(ValueModel::Str(variant_name(args[0])))
    }
}

/// The output after `print` has written the arguments from `from` on, one
/// line each.
pub open spec fn printed(output: Seq<Seq<char>>, args: Seq<ValueModel>, from: int) -> Seq<Seq<char>>
    decreases args.len() - from,
{
    if 0 <= from < args.len() {
        printed(output.push(render(args[from])), args, from + 1)
    } else {
        output
    }
}

/// The environment after `print(args...)`: one more line of output for
/// each argument, an empty line where there is none.
pub open spec fn print_of(env: EnvModel, args: Seq<ValueModel>) -> EnvModel {
    if args.len() == 0 {
        env.emit(Seq::empty())
    } else {
        EnvModel { output: printed(env.output, args, 0), ..env }
    }
}

/// What the call `f(args...)` at `pos` yields, and the environment it
/// leaves. Only `print` changes the environment.
pub open spec fn builtin_env(env: EnvModel, f: Builtin, args: Seq<ValueModel>) -> EnvModel {
    match f {
        Builtin::Print => print_of(env, args),
        _ => env,
    }
}

/// What the call `f(args...)` at `pos` yields.
pub open spec fn builtin_result(f: Builtin, pos: usize, args: Seq<ValueModel>) -> Result<
    ValueModel,
    ErrorModel,
> {
    match f {
        Builtin::Len => len_of(pos, args),
        Builtin::Head => head_of(pos, args),
        Builtin::Tail => tail_of(pos, args),
        Builtin::Append => append_of(pos, args),
        Builtin::Print => Ok(ValueModel::Unit),
        Builtin::AssertEq => assert_eq_of(pos, args),
        Builtin::Type => type_of(pos, args),
    }
}

/// Calls the native function `f`.
pub fn call(env: &mut Env, f: Builtin, pos: usize, args: Vec<Value>) -> (r: Result<Value, Error>)
    requires
        old(env).wf(),
    ensures
        final(env).wf(),
        final(env).model() == builtin_env(old(env).model(), f, values_model(args@)),
        value_result(r) == builtin_result(f, pos, values_model(args@)),
{
    match f {
        Builtin::Len => len(pos, args),
        Builtin::Head => head(pos, args),
        Builtin::Tail => tail(pos, args),
        Builtin::Append => append(pos, args),
        Builtin::Print => print(env, pos, args),
        Builtin::AssertEq => assert_eq(pos, args),
        Builtin::Type => type_(pos, args),
    }
}

fn count(pos: usize, n: usize) -> (r: Result<Value, Error>)
    ensures
        value_result(r) == count_value(pos, n as nat),
{
    if n <= 0x7fff_ffff {
        Ok(Value::Int(n as i32))
    } else {
        Err(Error::ArgValue { pos, message: "call len() with more than an int can count" })
    }
}

/// `len(x)`.
pub fn len(pos: usize, args: Vec<Value>) -> (r: Result<Value, Error>)
    ensures
        value_result(r) == len_of(pos, values_model(args@)),
{
    if args.len() != 1 {
        return Err(Error::ArgCount { pos, supplied: args.len(), expected: 1 });
    }
    let ghost given = values_model(args@);
    let mut args = args;
    let value = args.pop().unwrap();
    assert(given[0] == value.model());
    match value {
        Value::Str(s) => count(pos, s.as_str().as_bytes().len()),
        Value::Sequence(seq) => {
            assert(values_model(seq@).len() == seq.len());
            count(pos, seq.len())
        },
        Value::Mapping(map) => {
            assert(crate::eval::value::mapping_model(map@).len() == map.len());
            count(pos, map.len())
        },
        _ => Err(Error::ArgType { pos, supplied: value, expected: "seq | str | map" }),
    }
}

/// `head(x)`.
pub fn head(pos: usize, args: Vec<Value>) -> (r: Result<Value, Error>)
    ensures
        value_result(r) == head_of(pos, values_model(args@)),
{
    if args.len() != 1 {
        return Err(Error::ArgCount { pos, supplied: args.len(), expected: 1 });
    }
    let ghost given = values_model(args@);
    let mut args = args;
    let value = args.pop().unwrap();
    assert(given[0] == value.model());
    match value {
        Value::Sequence(seq) => {
            if seq.len() > 0 {
                assert(values_model(seq@)[0] == seq@[0].model());
                Ok(seq[0].clone())
            } else {
                Err(Error::ArgValue { pos, message: "call head() with an empty seq" })
            }
        },
        _ => Err(Error::ArgType { pos, supplied: value, expected: "seq" }),
    }
}

/// `tail(x)`.
pub fn tail(pos: usize, args: Vec<Value>) -> (r: Result<Value, Error>)
    ensures
        value_result(r) == tail_of(pos, values_model(args@)),
{
    if args.len() != 1 {
        return Err(Error::ArgCount { pos, supplied: args.len(), expected: 1 });
    }
    let ghost given = values_model(args@);
    let mut args = args;
    let value = args.pop().unwrap();
    assert(given[0] == value.model());
    match value {
        Value::Sequence(seq) => {
            if seq.len() > 0 {
                assert(values_model(seq@).len() == seq.len());
                let mut rest: Vec<Value> = Vec::new();
                assert(values_model(rest@) =~= values_model(seq@).subrange(1, 1));
                let mut i: usize = 1;
                while i < seq.len()
                    invariant
                        1 <= i <= seq.len(),
                        values_model(rest@) == values_model(seq@).subrange(1, i as int),
                    decreases seq.len() - i,
                {
                    let v = seq[i].clone();
                    proof {
                        lemma_values_model_push(rest@, v);
                    }
                    rest.push(v);
                    assert(values_model(rest@) =~= values_model(seq@).subrange(1, i + 1));
                    i += 1;
                }
                Ok(Value::Sequence(Rc::new(rest)))
            } else {
                Err(Error::ArgValue { pos, message: "call tail() with an empty seq" })
            }
        },
        _ => Err(Error::ArgType { pos, supplied: value, expected: "Seq" }),
    }
}

/// `append(x, y, ...)`.
pub fn append(pos: usize, args: Vec<Value>) -> (r: Result<Value, Error>)
    ensures
        value_result(r) == append_of(pos, values_model(args@)),
{
    if args.len() < 2 {
        return Err(Error::ArgCount { pos, supplied: args.len(), expected: 2 });
    }
    match &args[0] {
        Value::Sequence(seq) => {
            let mut new_seq = concat(seq, &Vec::new());
            assert(values_model(new_seq@) =~= values_model(seq@));
            let mut i: usize = 1;
            while i < args.len()
                invariant
                    1 <= i <= args.len(),
                    values_model(new_seq@) == values_model(seq@) + values_model(args@).subrange(
                        1,
                        i as int,
                    ),
                decreases args.len() - i,
            {
                let v = args[i].clone();
                proof {
                    lemma_values_model_push(new_seq@, v);
                }
                new_seq.push(v);
                assert(values_model(new_seq@) =~= values_model(seq@) + values_model(
                    args@,
                ).subrange(1, i + 1));
                i += 1;
            }
            Ok(Value::Sequence(Rc::new(new_seq)))
        },
        other => Err(
            Error::ArgType { pos, supplied: other.clone(), expected: "append(seq, T...)" },
        ),
    }
}

/// `print(x, ...)`: adds the arguments to the output of `env`, one line
/// each, and an empty line where there is none.
pub fn print(env: &mut Env, _pos: usize, args: Vec<Value>) -> (r: Result<Value, Error>)
    requires
        old(env).wf(),
    ensures
        final(env).wf(),
        final(env).model() == print_of(old(env).model(), values_model(args@)),
        value_result(r) == Ok::<ValueModel, ErrorModel>(ValueModel::Unit),
{
    if args.len() == 0 {
        env.emit(String::new());
        return Ok(Value::Unit);
    }
    let ghost target = printed(old(env).model().output, values_model(args@), 0);
    let mut i: usize = 0;
    while i < args.len()
        invariant
            i <= args.len(),
            env.wf(),
            env.model() == (EnvModel { output: env.model().output, ..old(env).model() }),
            printed(env.model().output, values_model(args@), i as int) == target,
        decreases args.len() - i,
    {
        let line = args[i].render();
        env.emit(line);
        i += 1;
    }
    Ok(Value::Unit)
}

/// `assert_eq(x, y)`.
pub fn assert_eq(pos: usize, args: Vec<Value>) -> (r: Result<Value, Error>)
    ensures
        value_result(r) == assert_eq_of(pos, values_model(args@)),
{
    if args.len() != 2 {
        return Err(Error::ArgCount { pos, supplied: args.len(), expected: 2 });
    }
    let mut args = args;
    let right = args.pop().unwrap();
    let left = args.pop().unwrap();
    if left.eq(&right) {
        Ok(Value::Unit)
    } else {
        Err(Error::AssertEq { pos, left, right })
    }
}

/// `type(x)`.
pub fn type_(pos: usize, args: Vec<Value>) -> (r: Result<Value, Error>)
    ensures
        value_result(r) == type_of(pos, values_model(args@)),
{
    if args.len() != 1 {
        return Err(Error::ArgCount { pos, supplied: args.len(), expected: 1 });
    }
    let name = args[0].variant();
    Ok(Value::Str(Rc::new(String::from_str(name))))
}

} // verus!
