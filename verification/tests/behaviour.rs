use oris::eval::entry;
use oris::eval::env::{find_closest_symbol, Env, Storage};
use oris::eval::error::Error;
use oris::eval::value::{Builtin, Value};
use oris::parse::ast::{BinaryOp, Ident, UnaryOp};
use oris::support::{decimal_text, signed_decimal_text};
use std::rc::Rc;

fn run_in(env: &mut Env, code: &str) -> Result<Value, Error> {
    entry(env, code.as_bytes())
}

fn run(code: &str) -> Result<Value, Error> {
    run_in(&mut Env::with_builtin(200), code)
}

fn int_of(code: &str) -> i32 {
    match run(code) {
        Ok(Value::Int(x)) => x,
        other => panic!("{:?}", other),
    }
}

fn bool_of(code: &str) -> bool {
    match run(code) {
        Ok(Value::Bool(x)) => x,
        other => panic!("{:?}", other),
    }
}

fn text_of(code: &str) -> String {
    match run(code) {
        Ok(value) => value.render(),
        Err(e) => panic!("{:?}", e),
    }
}

fn error_of(code: &str) -> Error {
    match run(code) {
        Ok(value) => panic!("{:?}", value),
        Err(e) => e,
    }
}

#[test]
fn capture_is_by_value() {
    assert_eq!(int_of("let x = 1; let f = fn() { x }; let x = 2; f()"), 1);
    assert_eq!(int_of("let x = 1; let f = fn() { x }; let x = 2; x"), 2);
    assert_eq!(
        int_of("let x = 1; let f = fn(y) { x + y }; let g = fn() { let x = 100; f(1) }; g()"),
        2
    );
}

#[test]
fn recursion_without_mutation() {
    assert_eq!(int_of("let f = fn(x) { if x <= 0 { 0 } else { f(x - 1) } }; f(5)"), 0);
    assert_eq!(int_of("let f = fn(x) { if x <= 0 { 0 } else { x + f(x - 1) } }; f(10)"), 55);
}

#[test]
fn arity_mismatch_is_an_error() {
    match error_of("let f = fn(a, b) { a }; f(1)") {
        Error::ArgCount { pos, supplied, expected } => {
            assert_eq!((pos, supplied, expected), (25, 1, 2));
        }
        other => panic!("{:?}", other),
    }
    match error_of("let f = fn(a, b) { a }; f(1, 2, 3)") {
        Error::ArgCount { supplied, expected, .. } => assert_eq!((supplied, expected), (3, 2)),
        other => panic!("{:?}", other),
    }
    assert_eq!(int_of("let f = fn(a, b) { a }; f(1, 2)"), 1);
}

#[test]
fn head_of_nothing_is_an_error() {
    assert_eq!(int_of("len([1, 2, 3])"), 3);
    match error_of("head([])") {
        Error::ArgValue { pos, message } => {
            assert_eq!(pos, 4);
            assert_eq!(message, "call head() with an empty seq");
        }
        other => panic!("{:?}", other),
    }
    assert!(matches!(error_of("tail([])"), Error::ArgValue { .. }));
}

#[test]
fn type_of_one_is_int_every_time() {
    let mut env = Env::with_builtin(200);
    for _ in 0..5 {
        match run_in(&mut env, "type(1)") {
            Ok(Value::Str(s)) => assert_eq!(s.as_str(), "int"),
            other => panic!("{:?}", other),
        }
    }
    assert!(env.output.is_empty());
    assert!(env.frames.is_empty());
}

#[test]
fn integers_wrap_and_division_traps() {
    assert_eq!(int_of("2147483647 + 1"), -2147483648);
    assert_eq!(int_of("0 - 2147483647 - 2"), 2147483647);
    assert_eq!(int_of("65536 * 65536"), 0);
    assert_eq!(int_of("-(0 - 2147483647 - 1)"), -2147483648);
    assert_eq!(int_of("7 / 2"), 3);
    assert_eq!(int_of("(0 - 7) / 2"), -3);
    assert_eq!(int_of("7 / (0 - 2)"), -3);
    match error_of("1 / 0") {
        Error::Binary { pos, left: Value::Int(1), op: BinaryOp::Div, right: Value::Int(0) } => {
            assert_eq!(pos, 2)
        }
        other => panic!("{:?}", other),
    }
    assert!(matches!(error_of("(0 - 2147483647 - 1) / (0 - 1)"), Error::Binary { .. }));
}

#[test]
fn comparisons() {
    assert!(bool_of("1 < 2"));
    assert!(!bool_of("2 < 2"));
    assert!(bool_of("2 <= 2"));
    assert!(bool_of("3 > 2"));
    assert!(bool_of("2 >= 2"));
    assert!(bool_of("true == true"));
    assert!(bool_of("true != false"));
    assert!(bool_of("\"a\" == \"a\""));
    assert!(bool_of("\"a\" != \"b\""));
    assert!(bool_of("!false"));
    assert!(matches!(error_of("true < false"), Error::Binary { .. }));
    assert!(matches!(error_of("1 == true"), Error::Binary { .. }));
    assert!(matches!(error_of("\"a\" - \"b\""), Error::Binary { .. }));
    assert!(matches!(error_of("len == len"), Error::Binary { .. }));
}

#[test]
fn text_and_sequences_concatenate() {
    assert_eq!(text_of("\"ab\" + \"cd\""), "\"abcd\"");
    assert_eq!(text_of("[1] + [] + [2, [3]]"), "[1, 2, [3]]");
    assert_eq!(int_of("let a = [1]; let b = a + [2]; len(a)"), 1);
}

#[test]
fn structural_equality() {
    assert!(bool_of("[1, [2, \"x\"]] == [1, [2, \"x\"]]"));
    assert!(bool_of("[1, 2] != [1, 3]"));
    assert!(bool_of("[1, 2] != [1]"));
    assert!(bool_of("{1: 2, 3: 4} == {3: 4, 1: 2}"));
    assert!(bool_of("{1: 2} != {1: 3}"));
    assert!(bool_of("{1: 2} != {1: 2, 3: 4}"));
    assert!(bool_of("[len] == [len]"));
    assert!(bool_of("[len] != [head]"));
    assert!(bool_of("[1] != [true]"));
}

#[test]
fn closures_are_equal_only_to_themselves() {
    assert!(bool_of("let f = fn() { 1 }; [f] == [f]"));
    assert!(bool_of("let f = fn() { 1 }; let g = f; [f] == [g]"));
    assert!(bool_of("[fn() { 1 }] != [fn() { 1 }]"));
    assert!(bool_of("let make = fn() { fn() { 1 } }; [make()] != [make()]"));
}

#[test]
fn maps() {
    assert_eq!(int_of("len({1: 2, 1: 3})"), 1);
    assert_eq!(int_of("{1: 2, 1: 3}[1]"), 3);
    assert_eq!(text_of("{2: \"two\", \"three\": 3, false: 4, 2: 5}"), "{2: 5, \"three\": 3, false: 4}");
    assert!(matches!(error_of("{1: 2}[3]"), Error::Index { .. }));
    assert!(matches!(error_of("{1: 2}[[1]]"), Error::Index { .. }));
    match error_of("{[1]: 2}") {
        Error::ArgType { pos, expected, .. } => {
            assert_eq!(pos, 1);
            assert_eq!(expected, "int | bool | str as map key");
        }
        other => panic!("{:?}", other),
    }
}

#[test]
fn subscripts() {
    assert_eq!(int_of("[1, 2, 3][0]"), 1);
    match error_of("[1, 2, 3][3]") {
        Error::Index { pos, base: Value::Sequence(_), subscript: Value::Int(3) } => {
            assert_eq!(pos, 9)
        }
        other => panic!("{:?}", other),
    }
    assert!(matches!(error_of("[1][0 - 1]"), Error::Index { .. }));
    assert!(matches!(error_of("[1][true]"), Error::Index { .. }));
    assert!(matches!(error_of("1[0]"), Error::Index { .. }));
    assert!(matches!(error_of("\"abc\"[0]"), Error::Index { .. }));
}

#[test]
fn every_error_has_its_input() {
    assert!(matches!(error_of("assert_eq(1, 2)"), Error::AssertEq { pos: 9, .. }));
    assert!(matches!(error_of("1 +"), Error::Parse(_)));
    match error_of("  nothing") {
        Error::Undefined(ident) => {
            assert_eq!(ident.sym(), "nothing");
            assert_eq!(ident.pos(), 2);
        }
        other => panic!("{:?}", other),
    }
    assert!(matches!(error_of("-true"), Error::Unary { pos: 0, op: UnaryOp::Neg, .. }));
    assert!(matches!(error_of("!1"), Error::Unary { pos: 0, op: UnaryOp::Not, .. }));
    match error_of("1(2, 3)") {
        Error::Call { pos, target: Value::Int(1), args } => {
            assert_eq!(pos, 1);
            assert_eq!(args.len(), 2);
        }
        other => panic!("{:?}", other),
    }
    assert!(matches!(error_of("len()"), Error::ArgCount { supplied: 0, expected: 1, .. }));
    assert!(matches!(error_of("len(1, 2)"), Error::ArgCount { supplied: 2, expected: 1, .. }));
    assert!(matches!(error_of("append([])"), Error::ArgCount { supplied: 1, expected: 2, .. }));
    assert!(matches!(error_of("assert_eq(1)"), Error::ArgCount { supplied: 1, expected: 2, .. }));
    assert!(matches!(error_of("type()"), Error::ArgCount { supplied: 0, expected: 1, .. }));
    assert!(matches!(error_of("len(1)"), Error::ArgType { expected: "seq | str | map", .. }));
    assert!(matches!(error_of("head(1)"), Error::ArgType { expected: "seq", .. }));
    assert!(matches!(error_of("tail(1)"), Error::ArgType { expected: "Seq", .. }));
    assert!(matches!(
        error_of("append(1, 2)"),
        Error::ArgType { expected: "append(seq, T...)", .. }
    ));
}

#[test]
fn messages() {
    assert_eq!(error_of("assert_eq(1, [2])").message(), "assert_eq failed\n left: 1\nright: [2]");
    assert_eq!(error_of("x").message(), "undefined identifier: x");
    assert_eq!(error_of("[1][2]").message(), "index [1] with 2");
    assert_eq!(error_of("-true").message(), "invalid unary operator - for true");
    assert_eq!(
        error_of("1 <= \"a\"").message(),
        "invalid binary operator <= between 1 and \"a\""
    );
    assert_eq!(error_of("{}()").message(), "{} is not callable");
    assert_eq!(error_of("len()").message(), "accept arg x 1, but got 0");
    assert_eq!(
        error_of("len(len)").message(),
        "accept arg of type seq | str | map, but got <builtin>"
    );
    assert_eq!(error_of("tail([])").message(), "call tail() with an empty seq");
    assert_eq!(error_of("(").message(), "miss expression");
    assert_eq!(error_of("$").message(), "unexpected byte");
    assert_eq!(error_of("1 +").pos(), 3);
    assert_eq!(error_of("  x").pos(), 2);
}

#[test]
fn rendering() {
    assert_eq!(text_of("print()"), "<unit>");
    assert_eq!(text_of("0 - 12"), "-12");
    assert_eq!(text_of("0 - 2147483647 - 1"), "-2147483648");
    assert_eq!(text_of("[true, false]"), "[true, false]");
    assert_eq!(text_of("[]"), "[]");
    assert_eq!(text_of("{}"), "{}");
    assert_eq!(text_of("[fn() { 1 }, len, {\"k\": [1]}]"), "[<closure>, <builtin>, {\"k\": [1]}]");
    assert_eq!(text_of("\"line\nbreak\ttab\\\""), "\"line\\nbreak\\ttab\\\\\"");
    assert_eq!(text_of("\"h\u{e9}\""), "\"h\u{e9}\"");
}

#[test]
fn text_length_is_in_bytes() {
    assert_eq!(int_of("len(\"h\u{e9}\")"), 3);
    assert_eq!(int_of("len(\"\u{1f600}\")"), 4);
}

#[test]
fn print_adds_lines_to_the_output() {
    let mut env = Env::with_builtin(200);
    let r = run_in(&mut env, "print(1, \"two\", [3]); print(); print(fn() { 1 })");
    assert!(matches!(r, Ok(Value::Unit)));
    assert_eq!(env.output, vec!["1", "\"two\"", "[3]", "", "<closure>"]);
    assert_eq!(env.take_output().len(), 5);
    assert!(env.output.is_empty());
    let r = run_in(&mut env, "print(1); nothing; print(2)");
    assert!(matches!(r, Err(Error::Undefined(_))));
    assert_eq!(env.take_output(), vec!["1"]);
}

#[test]
fn conditions_that_are_not_true_take_the_alternative() {
    assert_eq!(int_of("if 1 { 2 } else { 3 }"), 3);
    assert_eq!(int_of("if \"true\" { 2 } else { 3 }"), 3);
    assert_eq!(int_of("if true { 2 } else { 3 }"), 2);
    assert!(matches!(run("if false { 2 }"), Ok(Value::Unit)));
    assert!(matches!(run("if 0 { 2 }"), Ok(Value::Unit)));
}

#[test]
fn blocks_share_the_scope_of_their_call() {
    assert_eq!(int_of("if true { let x = 5; } x"), 5);
    assert_eq!(int_of("let f = fn() { if true { let x = 5; } x }; f()"), 5);
    assert!(matches!(error_of("let f = fn() { let x = 5; x }; f(); x"), Error::Undefined(_)));
}

#[test]
fn names_resolve_from_the_innermost_scope_outwards() {
    assert_eq!(int_of("let y = 1; let f = fn() { let y = 2; y }; f() + y"), 3);
    assert_eq!(int_of("let f = fn() { late }; let late = 7; f()"), 7);
    assert_eq!(int_of("let f = fn() { y }; let g = fn() { let y = 1; f() }; g()"), 1);
}

#[test]
fn return_ends_the_call_and_nothing_more() {
    assert_eq!(int_of("let f = fn() { return 1; 2 }; f() + 10"), 11);
    assert_eq!(int_of("let f = fn() { [1, if true { return 2; }, 3] }; f()"), 2);
    assert_eq!(int_of("let f = fn() { {1: if true { return 2; }} }; f()"), 2);
    assert_eq!(int_of("let f = fn() { {if true { return 2; }: 1} }; f()"), 2);
    assert_eq!(
        int_of("let f = fn(x) { x }; let g = fn() { f(if true { return 3; }) }; g()"),
        3
    );
    assert_eq!(int_of("let g = fn() { let x = if true { return 4; }; 5 }; g()"), 4);
    assert_eq!(int_of("let g = fn() { return; 5 }; g()"), 5);
    assert_eq!(int_of("1; return 2; 3"), 2);
    assert_eq!(int_of("let g = fn() { 1 + if true { return 6; } }; g()"), 6);
    assert_eq!(int_of("let g = fn() { if if true { return 7; } { 1 } }; g()"), 7);
    assert_eq!(int_of("let g = fn() { [1][if true { return 8; }] }; g()"), 8);
    assert_eq!(int_of("let g = fn() { -if true { return 9; } }; g()"), 9);
    assert_eq!(int_of("let g = fn() { return if true { return 10; }; }; g()"), 10);
    assert_eq!(int_of("let g = fn() { if true { return 11; }() }; g()"), 11);
    assert!(matches!(error_of("[1, return 2]"), Error::Parse(_)));
}

#[test]
fn statements_yield_the_unit_value() {
    assert!(matches!(run("let x = 1;"), Ok(Value::Unit)));
    assert!(matches!(run(""), Ok(Value::Unit)));
    assert!(matches!(run("1; let x = 2"), Ok(Value::Unit)));
    assert!(matches!(run("let f = fn() { let x = 1; }; f()"), Ok(Value::Unit)));
    assert!(matches!(run("let f = fn() { }; f()"), Ok(Value::Unit)));
}

#[test]
fn the_environment_lives_on_between_runs() {
    let mut env = Env::with_builtin(200);
    assert!(matches!(run_in(&mut env, "let x = 41;"), Ok(Value::Unit)));
    assert!(matches!(run_in(&mut env, "let f = fn() { x + 1 };"), Ok(Value::Unit)));
    assert!(matches!(run_in(&mut env, "f()"), Ok(Value::Int(42))));
    assert!(matches!(run_in(&mut env, "let y = 1; oops; let z = 2;"), Err(Error::Undefined(_))));
    assert!(matches!(run_in(&mut env, "y"), Ok(Value::Int(1))));
    assert!(matches!(run_in(&mut env, "z"), Err(Error::Undefined(_))));
    assert!(matches!(run_in(&mut env, "let w = 1; ) let v = 2;"), Err(Error::Parse(_))));
    assert!(matches!(run_in(&mut env, "w"), Ok(Value::Int(1))));
    assert!(env.frames.is_empty());
}

#[test]
fn scopes_are_closed_when_a_call_fails() {
    let mut env = Env::with_builtin(200);
    assert!(run_in(&mut env, "let f = fn(x) { let a = x; nothing }; f(1)").is_err());
    assert!(env.frames.is_empty());
    assert!(env.cached.iter().all(|frame| frame.is_empty()));
    assert!(matches!(run_in(&mut env, "a"), Err(Error::Undefined(_))));
    assert!(matches!(run_in(&mut env, "let g = fn() { a }; g()"), Err(Error::Undefined(_))));
}

#[test]
fn call_depth_is_limited() {
    let code = "let f = fn(x) { if x <= 1 { 1 } else { 1 + f(x - 1) } }; ";
    let mut env = Env::with_builtin(10);
    assert!(matches!(run_in(&mut env, &format!("{} f(10)", code)), Ok(Value::Int(10))));
    match run_in(&mut env, "f(11)") {
        Err(Error::CallDepth { limit, .. }) => assert_eq!(limit, 10),
        other => panic!("{:?}", other),
    }
    assert!(env.frames.is_empty());
    let mut env = Env::with_builtin(0);
    assert!(matches!(run_in(&mut env, "len([])"), Ok(Value::Int(0))));
    assert!(matches!(run_in(&mut env, "fn() { 1 }()"), Err(Error::CallDepth { pos: 10, .. })));
    let mut env = Env::with_builtin(200);
    assert!(matches!(run_in(&mut env, &format!("{} f(200)", code)), Ok(Value::Int(200))));
    assert_eq!(
        run_in(&mut env, "f(201)").unwrap_err().message(),
        "more than 200 calls at once"
    );
}

#[test]
fn a_closure_is_named_by_its_let() {
    let mut env = Env::with_builtin(200);
    run_in(&mut env, "let f = fn(x) { if x <= 0 { g } else { f(x - 1) } };").unwrap();
    match env.get(&String::from("f")) {
        Some(Value::Closure(closure)) => {
            assert_eq!(closure.recursive.as_ref().unwrap().sym(), "f");
            assert_eq!(closure.undefined.len(), 1);
            assert_eq!(closure.undefined[0].sym(), "g");
            assert!(closure.captured.is_empty());
        }
        other => panic!("{:?}", other),
    }
    run_in(&mut env, "let g = f;").unwrap();
    match (env.get(&String::from("f")), env.get(&String::from("g"))) {
        (Some(Value::Closure(f)), Some(Value::Closure(g))) => {
            assert!(Rc::ptr_eq(f, g));
            assert_eq!(g.recursive.as_ref().unwrap().sym(), "f");
            assert_eq!(g.undefined[0].sym(), "g");
        }
        other => panic!("{:?}", other),
    }
    run_in(&mut env, "let p = fn() { q }; let q = p;").unwrap();
    match (env.get(&String::from("p")), env.get(&String::from("q"))) {
        (Some(Value::Closure(p)), Some(Value::Closure(q))) => {
            assert_eq!(p.id, q.id);
            assert!(!Rc::ptr_eq(p, q));
            assert!(p.recursive.is_none());
            assert_eq!(q.recursive.as_ref().unwrap().sym(), "q");
            assert!(q.undefined.is_empty());
        }
        other => panic!("{:?}", other),
    }
    run_in(&mut env, "let h = fn(a) { a + b + len([]) };").unwrap();
    match env.get(&String::from("h")) {
        Some(Value::Closure(closure)) => {
            assert!(closure.recursive.is_none());
            assert_eq!(closure.undefined[0].sym(), "b");
            assert_eq!(closure.captured.len(), 1);
            assert_eq!(closure.captured[0].0.sym(), "len");
            assert!(matches!(closure.captured[0].1, Value::Builtin(Builtin::Len)));
        }
        other => panic!("{:?}", other),
    }
}

#[test]
fn the_closest_symbol() {
    let mut storage: Storage = Vec::new();
    assert!(find_closest_symbol("x", &storage).is_none());
    for name in ["head", "tail", "heat"] {
        storage.push((Rc::new(String::from(name)), Value::Unit));
    }
    assert_eq!(find_closest_symbol("hea", &storage).unwrap().as_str(), "head");
    assert_eq!(find_closest_symbol("heat", &storage).unwrap().as_str(), "heat");
    assert_eq!(find_closest_symbol("tall", &storage).unwrap().as_str(), "tail");
    let mut env = Env::with_builtin(200);
    assert_eq!(env.find_similar_symbol("lenn").unwrap().as_str(), "len");
    env.push_frame();
    assert_eq!(env.find_similar_symbol("lenn").unwrap().as_str(), "len");
    env.set(Ident::test("apple"), Value::Unit);
    assert_eq!(env.find_similar_symbol("lenn").unwrap().as_str(), "apple");
    env.pop_frame();
    assert_eq!(env.find_similar_symbol("typ").unwrap().as_str(), "type");
}

#[test]
fn scopes() {
    let mut env = Env::new(Vec::new(), 5);
    let x = String::from("x");
    assert!(env.get(&x).is_none());
    env.set(Ident::test("x"), Value::Int(1));
    env.push_frame();
    assert!(matches!(env.get(&x), Some(Value::Int(1))));
    env.set(Ident::test("x"), Value::Int(2));
    env.set(Ident::test("y"), Value::Int(3));
    assert!(matches!(env.get(&x), Some(Value::Int(2))));
    env.push_frame();
    assert!(matches!(env.get(&x), Some(Value::Int(2))));
    assert!(matches!(env.get(&String::from("y")), Some(Value::Int(3))));
    env.pop_frame();
    env.pop_frame();
    assert!(matches!(env.get(&x), Some(Value::Int(1))));
    assert!(env.get(&String::from("y")).is_none());
    assert_eq!(env.cached.len(), 2);
    assert!(env.cached.iter().all(|frame| frame.is_empty()));
    env.push_frame();
    assert_eq!(env.cached.len(), 1);
    assert!(env.get(&String::from("y")).is_none());
    assert_eq!(env.fresh_id(), 0);
    assert_eq!(env.fresh_id(), 1);
    env.next_id = u64::MAX;
    assert_eq!(env.fresh_id(), u64::MAX);
    assert_eq!(env.fresh_id(), u64::MAX);
}

#[test]
fn decimal_numerals() {
    assert_eq!(decimal_text(0), "0");
    assert_eq!(decimal_text(7), "7");
    assert_eq!(decimal_text(10), "10");
    assert_eq!(decimal_text(1234567890), "1234567890");
    assert_eq!(decimal_text(u64::MAX), "18446744073709551615");
    assert_eq!(signed_decimal_text(0), "0");
    assert_eq!(signed_decimal_text(-1), "-1");
    assert_eq!(signed_decimal_text(i32::MIN as i64), "-2147483648");
    assert_eq!(signed_decimal_text(i64::MAX), "9223372036854775807");
}

#[test]
fn value_equality() {
    let a = Value::Str(Rc::new(String::from("a")));
    let b = Value::Str(Rc::new(String::from("a")));
    assert!(a.eq(&b) && b.eq(&a) && a.eq(&a));
    assert_eq!(a.render(), b.render());
    assert!(!a.eq(&Value::Str(Rc::new(String::from("b")))));
    assert!(Value::Unit.eq(&Value::Unit));
    assert!(!Value::Unit.eq(&Value::Int(0)));
    assert!(!Value::Int(1).eq(&Value::Bool(true)));
    assert!(Value::Builtin(Builtin::Len).eq(&Value::Builtin(Builtin::Len)));
    assert!(!Value::Builtin(Builtin::Len).eq(&Value::Builtin(Builtin::Type)));
    let c = a.clone();
    match (&a, &c) {
        (Value::Str(x), Value::Str(y)) => assert!(Rc::ptr_eq(x, y)),
        _ => unreachable!(),
    }
}
