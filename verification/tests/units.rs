use oris::eval::binary;
use oris::eval::binary::{bool_, eval, int_, map_, seq_, str_};
use oris::eval::env::{bind_natives, storage_find, storage_get, storage_insert, Env, Storage};
use oris::eval::error::{binary_text, unary_text, Error};
use oris::eval::value::builtin;
use oris::eval::value::builtin::{all_, append, call, head, len, print, tail, type_};
use oris::eval::value::closure::AnalyzeEnv;
use oris::eval::value::{
    mapping_find, mapping_get, mapping_insert, same_text, to_key, Builtin, Closure, Key, Value,
};
use oris::eval::{
    apply, bind_call_frame, eval_block, eval_entries, eval_expr, eval_exprs, eval_node, eval_stmt,
    eval_unary, index_value, name_closure, position, Eval,
};
use oris::lex::error::Kind as LexErrorKind;
use oris::lex::lexer::{is_atom_head, is_atom_tail, is_whitespace, to_keyword, Lexer};
use oris::lex::token::{Kind, Token};
use oris::parse::ast::{BinaryOp, Expr, Ident, Node, Stmt, UnaryOp};
use oris::parse::error::Expected;
use oris::parse::grammar::Precedence;
use oris::parse::parser::expr::{binary_operator, infix_precedence, rank_of};
use oris::parse::parser::Parser;
use std::rc::Rc;

fn text(s: &str) -> Value {
    Value::Str(Rc::new(String::from(s)))
}

fn list(items: Vec<Value>) -> Value {
    Value::Sequence(Rc::new(items))
}

fn parser(code: &str) -> Parser<'_> {
    Parser::new(Lexer::new(code.as_bytes()))
}

fn first_expr(code: &str) -> Expr {
    match parser(code).next() {
        Some(Ok(Node::Expr(e))) => e,
        other => panic!("{:?}", other),
    }
}

fn first_closure(code: &str) -> Rc<oris::parse::ast::Closure> {
    match first_expr(code) {
        Expr::Closure(f) => f,
        other => panic!("{:?}", other),
    }
}

#[test]
fn bytes_of_atoms() {
    assert!(is_atom_head(b'a') && is_atom_head(b'Z') && is_atom_head(b'_'));
    assert!(!is_atom_head(b'0') && !is_atom_head(b'-') && !is_atom_head(0x80));
    assert!(is_atom_tail(b'0') && is_atom_tail(b'9') && is_atom_tail(b'q'));
    assert!(!is_atom_tail(b' ') && !is_atom_tail(b'@') && !is_atom_tail(b'['));
    assert!(is_whitespace(b' ') && is_whitespace(b'\t') && is_whitespace(b'\n'));
    assert!(is_whitespace(b'\r') && is_whitespace(0x0c) && !is_whitespace(0x0b));
}

#[test]
fn keywords() {
    assert_eq!(to_keyword(b"let"), Some(Kind::Let));
    assert_eq!(to_keyword(b"true"), Some(Kind::True));
    assert_eq!(to_keyword(b"false"), Some(Kind::False));
    assert_eq!(to_keyword(b"fn"), Some(Kind::Fn));
    assert_eq!(to_keyword(b"if"), Some(Kind::If));
    assert_eq!(to_keyword(b"else"), Some(Kind::Else));
    assert_eq!(to_keyword(b"return"), Some(Kind::Return));
    assert_eq!(to_keyword(b"lets"), None);
    assert_eq!(to_keyword(b"Let"), None);
    assert_eq!(to_keyword(b""), None);
    assert_eq!(to_keyword(b"retur"), None);
}

#[test]
fn names_in_messages() {
    assert_eq!(Kind::LeftBracket.name(), "LeftBracket");
    assert_eq!(Kind::Ge.name(), "Ge");
    assert_eq!(Token { pos: 12, kind: Kind::Semicolon }.render(), "Token { pos: 12, kind: Semicolon }");
    assert_eq!(Expected::Expr.name(), "expression");
    assert_eq!(Expected::Token(Kind::Colon).name(), "Colon");
    let error = oris::lex::error::Error { pos: 0, kind: LexErrorKind::Overflow };
    assert_eq!(error.message(), "integer literal is too large");
    let error = oris::lex::error::Error { pos: 0, kind: LexErrorKind::BadDigit };
    assert_eq!(error.message(), "bad digit in integer literal");
    assert_eq!(unary_text(UnaryOp::Neg), "-");
    assert_eq!(unary_text(UnaryOp::Not), "!");
    let ops = [
        (BinaryOp::Add, "+"),
        (BinaryOp::Sub, "-"),
        (BinaryOp::Mul, "*"),
        (BinaryOp::Div, "/"),
        (BinaryOp::Lt, "<"),
        (BinaryOp::Le, "<="),
        (BinaryOp::Gt, ">"),
        (BinaryOp::Ge, ">="),
        (BinaryOp::Eq, "=="),
        (BinaryOp::Ne, "!="),
    ];
    for (op, written) in ops {
        assert_eq!(binary_text(op), written);
    }
}

#[test]
fn operators_and_their_precedence() {
    assert_eq!(infix_precedence(&Kind::Lt), Some(Precedence::Compare));
    assert_eq!(infix_precedence(&Kind::Ne), Some(Precedence::Compare));
    assert_eq!(infix_precedence(&Kind::Plus), Some(Precedence::AddSub));
    assert_eq!(infix_precedence(&Kind::Slash), Some(Precedence::MulDiv));
    assert_eq!(infix_precedence(&Kind::LeftBracket), Some(Precedence::Index));
    assert_eq!(infix_precedence(&Kind::LeftParen), Some(Precedence::Group));
    assert_eq!(infix_precedence(&Kind::Comma), None);
    assert_eq!(rank_of(None), 0);
    assert!(rank_of(Some(Precedence::Compare)) < rank_of(Some(Precedence::AddSub)));
    assert!(rank_of(Some(Precedence::AddSub)) < rank_of(Some(Precedence::MulDiv)));
    assert!(rank_of(Some(Precedence::MulDiv)) < rank_of(Some(Precedence::Index)));
    assert!(rank_of(Some(Precedence::Index)) < rank_of(Some(Precedence::Group)));
    assert_eq!(binary_operator(&Kind::Hyphen), Some(BinaryOp::Sub));
    assert_eq!(binary_operator(&Kind::Le), Some(BinaryOp::Le));
    assert_eq!(binary_operator(&Kind::Bang), None);
}

#[test]
fn pieces_of_the_parser() {
    let mut p = parser("let x ; y");
    assert_eq!(p.expect_token(Kind::Let).unwrap(), 0);
    assert!(!p.take_if(Kind::Semicolon));
    assert_eq!(p.expect_ident().unwrap().sym(), "x");
    p.skip_optional_semicolon();
    p.skip_optional_semicolon();
    assert!(p.expect_token(Kind::Let).is_err());
    assert!(p.expect_ident().is_err());
    assert!(p.expect_token(Kind::Let).is_err());

    let block = parser("{ 1; let a = 2 a }").parse_block().unwrap();
    assert_eq!(block.nodes.len(), 3);
    assert!(parser("{ 1").parse_block().is_err());
    assert!(parser("1 }").parse_block().is_err());
    assert_eq!(parser("a, b)").parse_parameters().unwrap().len(), 2);
    assert_eq!(parser(")").parse_parameters().unwrap().len(), 0);
    assert!(parser("a, 1)").parse_parameters().is_err());
    assert!(parser("a b)").parse_parameters().is_err());
    assert_eq!(parser("1, 2]").parse_separated_with(Kind::RightBracket).unwrap().len(), 2);
    assert!(parser("1, 2)").parse_separated_with(Kind::RightBracket).is_err());
    assert_eq!(parser("1: 2, 3: 4}").parse_entries().unwrap().len(), 2);
    assert!(parser("1 2}").parse_entries().is_err());
    assert!(parser("1: 2").parse_entry().is_ok());
    assert!(matches!(parser("let a = 1").parse_let_stmt(), Ok(Stmt::Let(_))));
    assert!(matches!(parser("return 1").parse_return_stmt(), Ok(Stmt::Return(_))));
    assert!(parser("1 + 2;").parse_standalone_expr().is_ok());
    assert!(parser("2 * 3").parse_expr_again(Precedence::MulDiv).is_ok());
    let f = parser("(a) { a }").parse_function_expression(7).unwrap();
    assert_eq!((f.pos, f.parameters.len(), f.body.nodes.len()), (7, 1, 1));
    let e = parser("a { 1 } else { 2 }").parse_if_expr(3).unwrap();
    assert_eq!(e.pos, 3);
    assert!(matches!(parser("1, 2)").parse_call_expr(0, first_expr("f")), Ok(Expr::Call(_))));
    assert!(parser("+ 2").parse_infix_expr(first_expr("1")).is_ok());
    assert!(parser(", 2").parse_infix_expr(first_expr("1")).is_err());
}

#[test]
fn analysis_of_free_identifiers() {
    let mut env = AnalyzeEnv { bound: Vec::new(), unbounded: Vec::new() };
    env.create_ident(&Ident::test("a"));
    assert!(env.has_ident(&Ident::test("a")));
    assert!(!env.has_ident(&Ident::test("b")));
    env.access_ident(&Ident::test("a"));
    env.access_ident(&Ident::test("b"));
    env.access_ident(&Ident::test("b"));
    assert_eq!(env.unbounded.len(), 2);
    env.walk_expr(&first_expr("[a, c, {d: e}, f(g)[h], -i, fn() { j }]"));
    let names: Vec<&str> = env.unbounded.iter().map(|i| i.sym()).collect();
    assert_eq!(names, vec!["b", "b", "c", "d", "e", "f", "g", "h", "i"]);
    let f = first_closure("fn() { let k = l; k; return m; }");
    let mut env = AnalyzeEnv { bound: Vec::new(), unbounded: Vec::new() };
    env.walk_block(&f.body);
    assert!(env.bound.is_empty());
    let names: Vec<&str> = env.unbounded.iter().map(|i| i.sym()).collect();
    assert_eq!(names, vec!["l", "m"]);
    match &f.body.nodes[0] {
        Node::Stmt(stmt) => {
            env.walk_stmt(stmt);
            assert_eq!(env.bound.len(), 1);
            assert_eq!(env.unbounded.len(), 3);
        }
        other => panic!("{:?}", other),
    }
}

#[test]
fn keys() {
    assert!(matches!(to_key(&Value::Int(1)), Some(Key::Int(1))));
    assert!(matches!(to_key(&Value::Bool(false)), Some(Key::Bool(false))));
    assert!(matches!(to_key(&text("k")), Some(Key::Str(_))));
    assert!(to_key(&Value::Unit).is_none());
    assert!(to_key(&list(vec![])).is_none());
    assert!(to_key(&Value::Mapping(Rc::new(vec![]))).is_none());
    assert!(to_key(&Value::Builtin(Builtin::Len)).is_none());
    let shared = Rc::new(String::from("k"));
    match to_key(&Value::Str(shared.clone())) {
        Some(Key::Str(k)) => assert!(Rc::ptr_eq(&k, &shared)),
        other => panic!("{:?}", other),
    }
    assert!(Key::Int(1).eq(&Key::Int(1)));
    assert!(!Key::Int(1).eq(&Key::Int(2)));
    assert!(!Key::Int(1).eq(&Key::Bool(true)));
    assert!(Key::Str(Rc::new(String::from("a"))).eq(&Key::Str(Rc::new(String::from("a")))));
    assert!(Key::Bool(true).clone().eq(&Key::Bool(true)));
    assert!(same_text(&String::from("a"), &String::from("a")));
    assert!(!same_text(&String::from("a"), &String::from("b")));
    let mut out = String::from(">");
    Key::Int(-3).render_into(&mut out);
    Key::Bool(true).render_into(&mut out);
    Key::Str(Rc::new(String::from("s"))).render_into(&mut out);
    assert_eq!(out, ">-3true\"s\"");
}

#[test]
fn maps_as_entries() {
    let mut entries: Vec<(Key, Value)> = Vec::new();
    assert!(mapping_find(&entries, &Key::Int(1)).is_none());
    mapping_insert(&mut entries, Key::Int(1), Value::Int(10));
    mapping_insert(&mut entries, Key::Bool(true), Value::Int(20));
    mapping_insert(&mut entries, Key::Int(1), Value::Int(30));
    assert_eq!(entries.len(), 2);
    assert_eq!(mapping_find(&entries, &Key::Bool(true)), Some(1));
    assert!(matches!(mapping_get(&entries, &Key::Int(1)), Some(Value::Int(30))));
    assert!(mapping_get(&entries, &Key::Int(2)).is_none());
}

#[test]
fn scopes_as_bindings() {
    let mut storage: Storage = Vec::new();
    let a = String::from("a");
    assert!(storage_find(&storage, &a).is_none());
    storage_insert(&mut storage, Rc::new(String::from("a")), Value::Int(1));
    storage_insert(&mut storage, Rc::new(String::from("b")), Value::Int(2));
    storage_insert(&mut storage, Rc::new(String::from("a")), Value::Int(3));
    assert_eq!(storage.len(), 2);
    assert_eq!(storage_find(&storage, &a), Some(0));
    assert!(matches!(storage_get(&storage, &a), Some(Value::Int(3))));
    assert!(storage_get(&storage, &String::from("c")).is_none());
    bind_natives(&mut storage);
    assert_eq!(storage.len(), 9);
    let names: Vec<&str> = all_().iter().map(|entry| entry.0).collect();
    assert_eq!(names, vec!["len", "head", "tail", "append", "print", "assert_eq", "type"]);
    for (name, f) in all_() {
        match storage_get(&storage, &String::from(name)) {
            Some(Value::Builtin(found)) => assert_eq!(*found, f),
            other => panic!("{:?}", other),
        }
    }
}

#[test]
fn binary_operators_by_operand() {
    assert!(matches!(int_(0, 6, BinaryOp::Mul, 7), Ok(Value::Int(42))));
    assert!(matches!(int_(0, 6, BinaryOp::Ge, 7), Ok(Value::Bool(false))));
    assert!(matches!(int_(0, 6, BinaryOp::Div, 0), Err(Error::Binary { .. })));
    assert!(matches!(bool_(0, true, BinaryOp::Eq, true), Ok(Value::Bool(true))));
    assert!(matches!(bool_(0, true, BinaryOp::Ne, true), Ok(Value::Bool(false))));
    assert!(matches!(bool_(4, true, BinaryOp::Add, true), Err(Error::Binary { pos: 4, .. })));
    let a = Rc::new(String::from("a"));
    let b = Rc::new(String::from("b"));
    match str_(0, a.clone(), BinaryOp::Add, b.clone()) {
        Ok(Value::Str(s)) => assert_eq!(s.as_str(), "ab"),
        other => panic!("{:?}", other),
    }
    assert!(matches!(str_(0, a.clone(), BinaryOp::Eq, b.clone()), Ok(Value::Bool(false))));
    assert!(matches!(str_(0, a.clone(), BinaryOp::Ne, b.clone()), Ok(Value::Bool(true))));
    assert!(matches!(str_(0, a, BinaryOp::Lt, b), Err(Error::Binary { .. })));
    let x = Rc::new(vec![Value::Int(1)]);
    let y = Rc::new(vec![Value::Int(2), Value::Int(3)]);
    assert_eq!(binary::concat(&x, &y).len(), 3);
    match seq_(0, x.clone(), BinaryOp::Add, y.clone()) {
        Ok(value) => assert_eq!(value.render(), "[1, 2, 3]"),
        other => panic!("{:?}", other),
    }
    assert!(matches!(seq_(0, x.clone(), BinaryOp::Eq, x.clone()), Ok(Value::Bool(true))));
    assert!(matches!(seq_(0, x.clone(), BinaryOp::Ne, y.clone()), Ok(Value::Bool(true))));
    assert!(matches!(seq_(0, x, BinaryOp::Sub, y), Err(Error::Binary { .. })));
    let m = Rc::new(vec![(Key::Int(1), Value::Int(2))]);
    assert!(matches!(map_(0, m.clone(), BinaryOp::Eq, m.clone()), Ok(Value::Bool(true))));
    assert!(matches!(map_(0, m.clone(), BinaryOp::Ne, m.clone()), Ok(Value::Bool(false))));
    assert!(matches!(map_(0, m.clone(), BinaryOp::Add, m), Err(Error::Binary { .. })));
    assert!(matches!(eval(0, Value::Int(1), BinaryOp::Add, Value::Int(2)), Ok(Value::Int(3))));
    assert!(matches!(eval(0, Value::Int(1), BinaryOp::Add, text("a")), Err(Error::Binary { .. })));
    assert!(matches!(eval(0, Value::Unit, BinaryOp::Eq, Value::Unit), Err(Error::Binary { .. })));
}

#[test]
fn native_functions_by_hand() {
    assert!(matches!(len(0, vec![text("abc")]), Ok(Value::Int(3))));
    assert!(matches!(head(0, vec![list(vec![Value::Int(5)])]), Ok(Value::Int(5))));
    match tail(0, vec![list(vec![Value::Int(5), Value::Int(6)])]) {
        Ok(value) => assert_eq!(value.render(), "[6]"),
        other => panic!("{:?}", other),
    }
    match append(0, vec![list(vec![]), Value::Unit, Value::Int(1)]) {
        Ok(value) => assert_eq!(value.render(), "[<unit>, 1]"),
        other => panic!("{:?}", other),
    }
    assert!(matches!(builtin::assert_eq(0, vec![text("a"), text("a")]), Ok(Value::Unit)));
    assert!(matches!(
        builtin::assert_eq(3, vec![text("a"), text("b")]),
        Err(Error::AssertEq { pos: 3, .. })
    ));
    match type_(0, vec![Value::Unit]) {
        Ok(Value::Str(s)) => assert_eq!(s.as_str(), "unit"),
        other => panic!("{:?}", other),
    }
    let mut env = Env::new(Vec::new(), 1);
    assert!(matches!(print(&mut env, 0, vec![Value::Int(1), Value::Int(2)]), Ok(Value::Unit)));
    assert!(matches!(call(&mut env, Builtin::Print, 0, vec![]), Ok(Value::Unit)));
    assert!(matches!(call(&mut env, Builtin::Len, 0, vec![list(vec![])]), Ok(Value::Int(0))));
    assert!(matches!(call(&mut env, Builtin::Head, 0, vec![]), Err(Error::ArgCount { .. })));
    assert_eq!(env.output, vec!["1", "2", ""]);
}

#[test]
fn steps_of_the_evaluator() {
    let mut env = Env::with_builtin(3);
    assert!(matches!(eval_expr(&mut env, &first_expr("1 + 1"), 3), Ok(Eval::Continue(Value::Int(2)))));
    match parser("let a = 5").next() {
        Some(Ok(Node::Stmt(stmt))) => {
            assert!(matches!(eval_stmt(&mut env, &stmt, 3), Ok(Eval::Continue(()))));
        }
        other => panic!("{:?}", other),
    }
    match parser("return a").next() {
        Some(Ok(node)) => {
            assert!(matches!(eval_node(&mut env, &node, 3), Ok(Eval::Return(Value::Int(5)))));
        }
        other => panic!("{:?}", other),
    }
    let f = first_closure("fn() { a; if a == 5 { return 7; } 8 }");
    assert!(matches!(eval_block(&mut env, &f.body, 3), Ok(Eval::Return(Value::Int(7)))));
    match first_expr("[a, 2]") {
        Expr::Sequence(seq) => match eval_exprs(&mut env, &seq.elements, 3) {
            Ok(Eval::Continue(values)) => assert_eq!(values.len(), 2),
            _ => panic!(),
        },
        other => panic!("{:?}", other),
    }
    match first_expr("{a: 2, 5: 3}") {
        Expr::Mapping(map) => match eval_entries(&mut env, &map.entries, 3) {
            Ok(Eval::Continue(entries)) => {
                assert_eq!(entries.len(), 1);
                assert!(matches!(entries[0], (Key::Int(5), Value::Int(3))));
            }
            _ => panic!(),
        },
        other => panic!("{:?}", other),
    }
    assert!(matches!(eval_unary(0, UnaryOp::Neg, Value::Int(5)), Ok(Value::Int(-5))));
    assert!(matches!(eval_unary(0, UnaryOp::Not, Value::Bool(true)), Ok(Value::Bool(false))));
    assert!(matches!(eval_unary(0, UnaryOp::Not, Value::Int(5)), Err(Error::Unary { .. })));
    assert!(matches!(index_value(0, list(vec![Value::Int(9)]), Value::Int(0)), Ok(Value::Int(9))));
    assert!(matches!(index_value(0, text("a"), Value::Int(0)), Err(Error::Index { .. })));
}

#[test]
fn calls_by_hand() {
    let mut env = Env::with_builtin(3);
    let f = first_closure("fn(x, y) { x + y + z }");
    env.set(Ident::test("z"), Value::Int(100));
    let record = Rc::new(Closure::new(f, &mut env));
    assert_eq!(record.id, 0);
    assert_eq!(record.captured.len(), 1);
    assert!(record.undefined.is_empty());
    env.set(Ident::test("z"), Value::Int(200));
    let made = Value::Closure(record.clone());
    let r = apply(&mut env, 0, made.clone(), vec![Value::Int(1), Value::Int(2)], 3);
    assert!(matches!(r, Ok(Value::Int(103))));
    assert!(matches!(apply(&mut env, 9, made.clone(), vec![], 3), Err(Error::ArgCount { pos: 9, .. })));
    assert!(matches!(apply(&mut env, 0, made, vec![Value::Int(1), Value::Int(2)], 0), Err(Error::CallDepth { limit: 3, .. })));
    assert!(matches!(apply(&mut env, 0, Value::Builtin(Builtin::Len), vec![text("ab")], 0), Ok(Value::Int(2))));
    assert!(matches!(apply(&mut env, 0, Value::Unit, vec![], 3), Err(Error::Call { .. })));
    bind_call_frame(&mut env, &record, &vec![Value::Int(1), Value::Int(2)]);
    assert_eq!(env.frames.len(), 1);
    assert!(matches!(env.get(&String::from("z")), Some(Value::Int(100))));
    assert!(matches!(env.get(&String::from("y")), Some(Value::Int(2))));
    env.pop_frame();
    assert!(matches!(env.get(&String::from("z")), Some(Value::Int(200))));
    let copy = record.duplicate();
    assert_eq!((copy.id, copy.captured.len()), (record.id, record.captured.len()));
    assert!(Rc::ptr_eq(&copy.f, &record.f));
}

#[test]
fn naming_a_closure() {
    let mut env = Env::with_builtin(3);
    let f = first_closure("fn() { a + b + a }");
    let record = Closure::new(f, &mut env);
    assert_eq!(position(&record.undefined, &Ident::test("b")), Some(1));
    assert_eq!(position(&record.undefined, &Ident::test("c")), None);
    let value = Value::Closure(Rc::new(record));
    match name_closure(value, &Ident::test("a")) {
        Value::Closure(named) => {
            assert_eq!(named.recursive.as_ref().unwrap().sym(), "a");
            let rest: Vec<&str> = named.undefined.iter().map(|i| i.sym()).collect();
            assert_eq!(rest, vec!["b", "a"]);
        }
        other => panic!("{:?}", other),
    }
    assert!(matches!(name_closure(Value::Int(1), &Ident::test("a")), Value::Int(1)));
    assert_eq!(Value::Unit.variant(), "unit");
    assert_eq!(Value::Builtin(Builtin::Print).variant(), "builtin");
}
