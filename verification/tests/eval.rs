use oris::eval::entry;
use oris::eval::env::{compute_edit_distance, Env};
use oris::eval::error::Error;
use oris::eval::value::closure::analyze_unbounded;
use oris::eval::value::Value;
use oris::lex::lexer::Lexer;
use oris::parse::ast::{Expr, Node};
use oris::parse::parser::Parser;

fn run(code: &str) -> Result<Value, Error> {
    let mut env = Env::with_builtin(200);
    entry(&mut env, code.as_bytes())
}

fn expect_int(code: &str, expected: i32) {
    match run(code) {
        Ok(Value::Int(result)) => assert_eq!(result, expected),
        Ok(value) => panic!("expect int {}, found {:?}", expected, value),
        Err(err) => panic!("eval failed: {:?}", err),
    }
}

fn expect_seq(code: &str, expected: Vec<i32>) {
    match run(code) {
        Ok(Value::Sequence(result)) => {
            let result = result
                .iter()
                .map(|v| match v {
                    Value::Int(v) => Ok(*v),
                    _ => Err(v),
                })
                .collect::<Result<Vec<_>, _>>();
            match result {
                Ok(seq) => assert_eq!(seq, expected),
                Err(value) => panic!("expect seq of int, found one is not int: {:?}", value),
            }
        }
        Ok(value) => panic!("expect seq of int, found {:?}", value),
        Err(err) => panic!("eval failed: {:?}", err),
    }
}

fn expect_error(code: &str) {
    match run(code) {
        Ok(value) => panic!("{:?}", value),
        Err(Error::Parse(err)) => panic!("{:?}", err),
        Err(_) => {}
    }
}

fn expect_unit(code: &str) {
    match run(code) {
        Ok(Value::Unit) => {}
        other => panic!("{:?}", other),
    }
}

fn expect_str(code: &str, expected: &str) {
    match run(code) {
        Ok(Value::Str(s)) => assert_eq!(s.as_str(), expected),
        Ok(v) => panic!("expect str, found {:?}", v),
        Err(err) => panic!("eval failed: {:?}", err),
    }
}

#[test]
fn test_edit_distance() {
    assert_eq!(compute_edit_distance("kitten", "sitting"), 3);
    assert_eq!(compute_edit_distance("self", "self"), 0);
    assert_eq!(compute_edit_distance("some", ""), 4);
    assert_eq!(compute_edit_distance("", "none"), 4);
}

#[test]
fn arithmetic() {
    expect_int("1 + 2", 3);

    expect_int("1 - 2", -1);

    expect_int("2 * 3", 6);
    expect_int("2 * 0", 0);

    expect_int("2 / 3", 0);
    expect_int("3 / 3", 1);

    expect_int("1 + 2 * 3", 7);
    expect_int("1 + (2 * 3)", 7);
    expect_int("(1 + 2) * 3", 9);
    expect_int("(2 + 3) / 2", 2);
}

#[test]
fn if_() {
    expect_int("if 1 < 2 { 3 } else { 4 }", 3);
    expect_int("if 1 > 2 { 3 } else { 4 }", 4);

    expect_int("if 1 != 2 { 3 } else { 4 }", 3);
    expect_int("if 1 == 2 { 3 } else { 4 }", 4);

    expect_int("if 1 <= 2 { 3 } else { 4 }", 3);
    expect_int("if 1 >= 2 { 3 } else { 4 }", 4);
}

#[test]
fn closure() {
    expect_int("let f = fn(x) { x + 1 }; f(1)", 2);
    expect_int("let f = fn(x) { if x < 0 { 0 } else { x } }; f(1)", 1);
    expect_int("let f = fn(x) { if x < 0 { 0 } else { x } }; f(-1)", 0);
    expect_int(
        "
let adder = fn(x) {
    fn(y) { x + y }
};

adder(1)(2)",
        3,
    );
    expect_seq(
        "
let filter = fn(seq, predicate) {
    let iter = fn(from, to) {
        if len(from) == 0 {
            to
        } else {
            iter(tail(from), if predicate(head(from)) {
                append(to, head(from))
            } else {
                to
            })
        }
    };

    iter(seq, [])
};

filter([1, 2, 3, 4], fn(x) { x / 2 * 2 == x })
",
        vec![2, 4],
    );
}

#[test]
fn closure_early_return() {
    expect_int("let f = fn(x) { if x < 0 { return 0; } x }; f(-1)", 0);
    expect_int("let f = fn(x) { if x < 0 { return 0; } x }; f(1)", 1);
}

#[test]
fn seq() {
    expect_seq("[1, 2, 3]", vec![1, 2, 3]);
    expect_seq("[1] + [2, 3]", vec![1, 2, 3]);
    expect_int("[1, 2, 3][2]", 3);
}

#[test]
fn map() {
    expect_int(r#"{2: "two", "three": 3, false: 4}["three"]"#, 3);
    expect_int(r#"{2: "two", "three": 3, false: 4}[false]"#, 4);
}

#[test]
fn builtin_len() {
    expect_int("len([])", 0);
    expect_int("len([1])", 1);
    expect_int("len([1, 2])", 2);

    expect_int("len(\"\")", 0);
    expect_int("len(\"a\")", 1);
    expect_int("len(\"ab\")", 2);
    expect_int("len(\"a b\")", 3);

    expect_int("len({})", 0);
    expect_int("len({1: 2})", 1);
    expect_int("len({3: true, false: 4})", 2);

    expect_error("len(1)");
    expect_error("len(true)");
    expect_error("len(len)");
    expect_error("len(a)");
    expect_error("len(print())");
    expect_error("len(fn(){})");
}

#[test]
fn builtin_head() {
    expect_error("head([])");
    expect_int("head([1])", 1);
    expect_int("head([2, 3])", 2);

    expect_error("head({})");
    expect_error("head(1)");
    expect_error("head(false)");
    expect_error("head(\"\")");
}

#[test]
fn builtin_tail() {
    expect_error("tail([])");
    expect_seq("tail([1])", vec![]);
    expect_seq("tail([1, 2])", vec![2]);
    expect_seq("tail([1, 2, 3])", vec![2, 3]);

    expect_error("tail({})");
    expect_error("tail(1)");
    expect_error("tail(false)");
    expect_error("tail(\"\")");
}

#[test]
fn builtin_append() {
    expect_error("append([])");
    expect_seq("append([], 1)", vec![1]);
    expect_seq("append([1], 2)", vec![1, 2]);
    expect_seq("append([1], 2, 3)", vec![1, 2, 3]);

    expect_error("append({})");
    expect_error("append(1)");
    expect_error("append(false)");
    expect_error("append(\"\")");
}

#[test]
fn builtin_assert_eq() {
    expect_unit("assert_eq(1, 1)");
    expect_error("assert_eq(1, 2)");
}

#[test]
fn builtin_type() {
    expect_str("type(print())", "unit");
    expect_str("type(1)", "int");
    expect_str("type(true)", "bool");
    expect_str("type(false)", "bool");
    expect_str("type(\"\")", "str");
    expect_str("type([])", "seq");
    expect_str("type([1])", "seq");
    expect_str("type({})", "map");
    expect_str("type({true: 1})", "map");
    expect_str("type(type)", "builtin");
    expect_str("type(fn(){})", "closure");
}

#[test]
fn unbounded() {
    let input = "
fn(y) {
    let a = 12;
    if y {
        let b = a + 3;
        z + b
    } else {
        x * 2
    }
}
";

    let lexer = Lexer::new(input.as_bytes());
    let mut parser = Parser::new(lexer);
    let f = parser.next().unwrap().unwrap();
    assert!(parser.next().is_none());

    match f {
        Node::Expr(Expr::Closure(closure)) => {
            let unbounded = analyze_unbounded(&closure);
            assert_eq!(unbounded.len(), 2);
            assert_eq!(unbounded[0].sym(), "z");
            assert_eq!(unbounded[1].sym(), "x");
        }
        _ => unreachable!(),
    }
}
