use oris::lex::lexer::Lexer;
use oris::parse::ast::{
    Binary, BinaryOp, Block, Bool, Closure, Expr, Ident, Int, Let, Mapping, Node, Return, Sequence,
    Stmt, Str, Unary, UnaryOp,
};
use oris::parse::error::{Error, Expected};
use oris::parse::parser::Parser;
use std::rc::Rc;

fn bool_lit(value: bool) -> Expr {
    Expr::Bool(Bool { pos: 0, value })
}

fn int_lit(value: i32) -> Expr {
    Expr::Int(Int { pos: 0, value })
}

fn str_lit(value: &str) -> Expr {
    Expr::Str(Str::from_src(0, value))
}

fn seq_lit(elements: Vec<Expr>) -> Expr {
    Expr::Sequence(Sequence { pos: 0, elements })
}

fn binary_of(left: Expr, op: BinaryOp, right: Expr) -> Expr {
    Expr::Binary(Box::new(Binary { pos: 0, left, op, right }))
}

fn block_of(nodes: Vec<Node>) -> Block {
    Block { pos: 0, nodes }
}

fn ident_of(name: &str) -> Expr {
    Expr::Ident(Ident::test(name))
}

fn unary_of(op: UnaryOp, value: Expr) -> Expr {
    Expr::Unary(Box::new(Unary { pos: 0, op, value }))
}

fn parse(input: &str) -> Result<Vec<Node>, Error> {
    let lexer = Lexer::new(input.as_bytes());
    let mut parser = Parser::new(lexer);
    let mut nodes = Vec::new();
    loop {
        match parser.next() {
            Some(Ok(node)) => nodes.push(node),
            Some(Err(e)) => return Err(e),
            None => return Ok(nodes),
        }
    }
}

fn pic_eq_node(left: &Node, right: &Node) -> bool {
    match (left, right) {
        (Node::Expr(left), Node::Expr(right)) => pic_eq_expr(left, right),
        (Node::Stmt(left), Node::Stmt(right)) => pic_eq_stmt(left, right),
        _ => false,
    }
}

fn pic_eq_stmt(left: &Stmt, right: &Stmt) -> bool {
    match (left, right) {
        (Stmt::Let(left), Stmt::Let(right)) => {
            left.ident.sym() == right.ident.sym() && pic_eq_expr(&left.value, &right.value)
        }
        (Stmt::Return(left), Stmt::Return(right)) => match (&left.value, &right.value) {
            (Some(left), Some(right)) => pic_eq_expr(left, right),
            (None, None) => true,
            _ => false,
        },
        _ => false,
    }
}

fn pic_eq_exprs(left: &[Expr], right: &[Expr]) -> bool {
    left.len() == right.len()
        && std::iter::zip(left, right).all(|(left, right)| pic_eq_expr(left, right))
}

fn pic_eq_expr(left: &Expr, right: &Expr) -> bool {
    match (left, right) {
        (Expr::Int(left), Expr::Int(right)) => left.value == right.value,
        (Expr::Bool(left), Expr::Bool(right)) => left.value == right.value,
        (Expr::Str(left), Expr::Str(right)) => left.value() == right.value(),
        (Expr::Sequence(left), Expr::Sequence(right)) => {
            pic_eq_exprs(&left.elements, &right.elements)
        }
        (Expr::Mapping(left), Expr::Mapping(right)) => {
            left.entries.len() == right.entries.len()
                && std::iter::zip(&left.entries, &right.entries).all(|(left, right)| {
                    pic_eq_expr(&left.0, &right.0) && pic_eq_expr(&left.1, &right.1)
                })
        }
        (Expr::Ident(left), Expr::Ident(right)) => left.sym() == right.sym(),
        (Expr::Index(left), Expr::Index(right)) => {
            pic_eq_expr(&left.base, &right.base) && pic_eq_expr(&left.subscript, &right.subscript)
        }
        (Expr::Unary(left), Expr::Unary(right)) => {
            left.op == right.op && pic_eq_expr(&left.value, &right.value)
        }
        (Expr::Binary(left), Expr::Binary(right)) => {
            pic_eq_expr(&left.left, &right.left)
                && left.op == right.op
                && pic_eq_expr(&left.right, &right.right)
        }
        (Expr::Closure(left), Expr::Closure(right)) => {
            left.parameters.len() == right.parameters.len()
                && std::iter::zip(&left.parameters, &right.parameters)
                    .all(|(left, right)| left.sym() == right.sym())
                && pic_eq_block(&left.body, &right.body)
        }
        (Expr::Call(left), Expr::Call(right)) => {
            pic_eq_expr(&left.target, &right.target) && pic_eq_exprs(&left.args, &right.args)
        }
        (Expr::If(left), Expr::If(right)) => {
            pic_eq_expr(&left.condition, &right.condition)
                && pic_eq_block(&left.consequence, &right.consequence)
                && match (&left.alternative, &right.alternative) {
                    (Some(left), Some(right)) => pic_eq_block(left, right),
                    (None, None) => true,
                    _ => false,
                }
        }
        _ => false,
    }
}

fn pic_eq_block(left: &Block, right: &Block) -> bool {
    left.nodes.len() == right.nodes.len()
        && std::iter::zip(&left.nodes, &right.nodes).all(|(left, right)| pic_eq_node(left, right))
}

fn expect_exprs(input: &str, expected: Vec<Expr>) {
    let nodes = parse(input).unwrap();
    let mut i = 0;
    for right in expected {
        match &nodes[i] {
            Node::Expr(left) if pic_eq_expr(left, &right) => {
                i += 1;
            }
            left => panic!("mismatch at index {}: {:?} != {:?}", i, left, right),
        }
    }
    assert_eq!(nodes.len(), i);
}

fn expect_stmt(input: &str, output: Stmt) {
    let nodes = parse(input).unwrap();
    match &nodes[0] {
        Node::Stmt(left) if pic_eq_stmt(left, &output) => {}
        left => panic!("stmt mismatch: {:?} != {:?}", left, output),
    }
    assert_eq!(nodes.len(), 1);
}

#[test]
fn int_() {
    expect_exprs("0", vec![int_lit(0)]);
    expect_exprs("01", vec![int_lit(1)]);
    expect_exprs("2", vec![int_lit(2)]);
    expect_exprs("123456", vec![int_lit(123456)]);
}

#[test]
fn bool_() {
    expect_exprs("true", vec![bool_lit(true)]);
    expect_exprs("false", vec![bool_lit(false)]);
}

#[test]
fn str_() {
    expect_exprs("\"foo\"", vec![str_lit("foo")]);
}

#[test]
fn seq_() {
    expect_exprs(
        "[2, a, true, \"b\"]",
        vec![seq_lit(vec![int_lit(2), ident_of("a"), bool_lit(true), str_lit("b")])],
    );
}

#[test]
fn map_() {
    expect_exprs(
        "{1: a, true: \"b\", \"three\": 3}",
        vec![Expr::Mapping(Mapping {
            pos: 0,
            entries: vec![
                (int_lit(1), ident_of("a")),
                (bool_lit(true), str_lit("b")),
                (str_lit("three"), int_lit(3)),
            ],
        })],
    );
}

#[test]
fn ident_() {
    expect_exprs("a", vec![ident_of("a")]);
    expect_exprs("a0", vec![ident_of("a0")]);
    expect_exprs("a_0", vec![ident_of("a_0")]);
    expect_exprs("_a", vec![ident_of("_a")]);

    assert!(matches!(parse("1a").unwrap_err(), Error::Lex(_)));
}

#[test]
fn unary_() {
    expect_exprs("-1", vec![unary_of(UnaryOp::Neg, int_lit(1))]);
    expect_exprs("-a", vec![unary_of(UnaryOp::Neg, ident_of("a"))]);

    expect_exprs("!true", vec![unary_of(UnaryOp::Not, bool_lit(true))]);
    expect_exprs("!false", vec![unary_of(UnaryOp::Not, bool_lit(false))]);
    expect_exprs("!a", vec![unary_of(UnaryOp::Not, ident_of("a"))]);
}

#[test]
fn binary_() {
    expect_exprs("1 + 2", vec![binary_of(int_lit(1), BinaryOp::Add, int_lit(2))]);
    expect_exprs("1 - 2", vec![binary_of(int_lit(1), BinaryOp::Sub, int_lit(2))]);
    expect_exprs("1 * 2", vec![binary_of(int_lit(1), BinaryOp::Mul, int_lit(2))]);
    expect_exprs("1 / 2", vec![binary_of(int_lit(1), BinaryOp::Div, int_lit(2))]);

    expect_exprs("a + b", vec![binary_of(ident_of("a"), BinaryOp::Add, ident_of("b"))]);
    expect_exprs("a - b", vec![binary_of(ident_of("a"), BinaryOp::Sub, ident_of("b"))]);
    expect_exprs("a * b", vec![binary_of(ident_of("a"), BinaryOp::Mul, ident_of("b"))]);
    expect_exprs("a / b", vec![binary_of(ident_of("a"), BinaryOp::Div, ident_of("b"))]);
}

#[test]
fn precedence() {
    expect_exprs(
        "1 + 2 * 3",
        vec![binary_of(int_lit(1), BinaryOp::Add, binary_of(int_lit(2), BinaryOp::Mul, int_lit(3)))],
    );

    expect_exprs(
        "1 + 2 * 3 - 4",
        vec![binary_of(
            binary_of(int_lit(1), BinaryOp::Add, binary_of(int_lit(2), BinaryOp::Mul, int_lit(3))),
            BinaryOp::Sub,
            int_lit(4),
        )],
    );

    expect_exprs(
        "(1 + 2) * 3",
        vec![binary_of(binary_of(int_lit(1), BinaryOp::Add, int_lit(2)), BinaryOp::Mul, int_lit(3))],
    );
}

#[test]
fn let_() {
    expect_stmt(
        "let a = 42;",
        Stmt::Let(Let { pos: 0, ident: Ident::test("a"), value: int_lit(42) }),
    );
    expect_stmt(
        "let b = true;",
        Stmt::Let(Let { pos: 0, ident: Ident::test("b"), value: bool_lit(true) }),
    );
    expect_stmt(
        "let c = false;",
        Stmt::Let(Let { pos: 0, ident: Ident::test("c"), value: bool_lit(false) }),
    );
    expect_stmt(
        "let math = 1 + 4 * 3 - 6 / 2;",
        Stmt::Let(Let {
            pos: 0,
            ident: Ident::test("math"),
            value: binary_of(
                binary_of(int_lit(1), BinaryOp::Add, binary_of(int_lit(4), BinaryOp::Mul, int_lit(3))),
                BinaryOp::Sub,
                binary_of(int_lit(6), BinaryOp::Div, int_lit(2)),
            ),
        }),
    );
    expect_stmt(
        "let always_five = fn() { 5 };",
        Stmt::Let(Let {
            pos: 0,
            ident: Ident::test("always_five"),
            value: Expr::Closure(Rc::new(Closure {
                pos: 0,
                parameters: vec![],
                body: block_of(vec![Node::Expr(int_lit(5))]),
            })),
        }),
    );
    expect_stmt(
        "let add = fn(x, y) { x + y };",
        Stmt::Let(Let {
            pos: 0,
            ident: Ident::test("add"),
            value: Expr::Closure(Rc::new(Closure {
                pos: 0,
                parameters: vec![Ident::test("x"), Ident::test("y")],
                body: block_of(vec![Node::Expr(binary_of(ident_of("x"), BinaryOp::Add, ident_of("y")))]),
            })),
        }),
    );
}

#[test]
fn return_() {
    expect_stmt("return;", Stmt::Return(Return { pos: 0, value: None }));
    expect_stmt("return 1;", Stmt::Return(Return { pos: 0, value: Some(int_lit(1)) }));
}

#[test]
fn comparison_binds_loosest() {
    expect_exprs(
        "1 + 2 < 3 * 4",
        vec![binary_of(
            binary_of(int_lit(1), BinaryOp::Add, int_lit(2)),
            BinaryOp::Lt,
            binary_of(int_lit(3), BinaryOp::Mul, int_lit(4)),
        )],
    );
    expect_exprs(
        "1 - 2 - 3",
        vec![binary_of(binary_of(int_lit(1), BinaryOp::Sub, int_lit(2)), BinaryOp::Sub, int_lit(3))],
    );
}

#[test]
fn positions_are_byte_offsets() {
    let nodes = parse("  let x = [1, f(2)];").unwrap();
    match &nodes[0] {
        Node::Stmt(Stmt::Let(let_)) => {
            assert_eq!(let_.pos, 2);
            assert_eq!(let_.ident.pos(), 6);
            match &let_.value {
                Expr::Sequence(seq) => {
                    assert_eq!(seq.pos, 10);
                    assert_eq!(seq.elements[0].pos(), 11);
                    match &seq.elements[1] {
                        Expr::Call(call) => {
                            assert_eq!(call.pos, 15);
                            assert_eq!(call.target.pos(), 14);
                        }
                        other => panic!("{:?}", other),
                    }
                }
                other => panic!("{:?}", other),
            }
        }
        other => panic!("{:?}", other),
    }
}

#[test]
fn syntax_errors() {
    match parse("(1 + 2").unwrap_err() {
        Error::Incomplete(incomplete) => {
            assert_eq!(incomplete.pos, 6);
            assert!(matches!(incomplete.expected, Expected::Token(_)));
        }
        other => panic!("{:?}", other),
    }
    match parse("1 +").unwrap_err() {
        Error::Incomplete(incomplete) => {
            assert_eq!(incomplete.expected, Expected::Expr);
        }
        other => panic!("{:?}", other),
    }
    match parse("let 1 = 2").unwrap_err() {
        Error::Mismatch(mismatch) => {
            assert_eq!(mismatch.left.pos, 4);
            assert_eq!(mismatch.right.name(), "Ident");
        }
        other => panic!("{:?}", other),
    }
    match parse(")").unwrap_err() {
        Error::Mismatch(mismatch) => assert_eq!(mismatch.right, Expected::Expr),
        other => panic!("{:?}", other),
    }
    assert_eq!(parse("let 1 = 2").unwrap_err().pos(), 4);
    assert_eq!(
        parse("let 1 = 2").unwrap_err().message(),
        "expect Ident, found Token { pos: 4, kind: Int }"
    );
    assert_eq!(parse("if x {").unwrap_err().message(), "miss RightBrace");
    assert_eq!(parse("[1, \"a").unwrap_err().message(), "missing right quote for string literal");
}

#[test]
fn calls_subscripts_and_conditionals() {
    let nodes = parse("f(1)(2)[3]; if a { 1 } else { 2 } {}").unwrap();
    assert_eq!(nodes.len(), 3);
    match &nodes[0] {
        Node::Expr(Expr::Index(index)) => match &index.base {
            Expr::Call(outer) => {
                assert!(matches!(outer.target, Expr::Call(_)));
                assert_eq!(outer.args.len(), 1);
            }
            other => panic!("{:?}", other),
        },
        other => panic!("{:?}", other),
    }
    match &nodes[1] {
        Node::Expr(Expr::If(if_)) => {
            assert_eq!(if_.consequence.nodes.len(), 1);
            assert!(if_.alternative.is_some());
        }
        other => panic!("{:?}", other),
    }
    assert!(matches!(&nodes[2], Node::Expr(Expr::Mapping(map)) if map.entries.is_empty()));
}
