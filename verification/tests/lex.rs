use oris::lex::error;
use oris::lex::lexer::Lexer;
use oris::lex::token::Kind;

fn expect_tokens(input: &str, tokens: Vec<Kind>) {
    let mut lexer = Lexer::new(input.as_bytes());
    for token in tokens {
        match lexer.next() {
            Some(Ok(tk)) => assert_eq!(tk.kind, token),
            Some(Err(err)) => panic!("expect token {:?}, found error: {:?}", token, err),
            None => panic!("expect token {:?}, found EOF", token),
        }
    }
    assert!(lexer.next().is_none());
}

#[test]
fn tokens() {
    expect_tokens(
        r#"
let
true
false
fn
return
if
else
foo
0
01
42
"bar"
,
:
;
()
[]
{}
+ - * /
= !
== !=
< >
<= >=
"#,
        vec![
            Kind::Let,
            Kind::True,
            Kind::False,
            Kind::Fn,
            Kind::Return,
            Kind::If,
            Kind::Else,
            Kind::Ident,
            Kind::Int,
            Kind::Int,
            Kind::Int,
            Kind::Str,
            Kind::Comma,
            Kind::Colon,
            Kind::Semicolon,
            Kind::LeftParen,
            Kind::RightParen,
            Kind::LeftBracket,
            Kind::RightBracket,
            Kind::LeftBrace,
            Kind::RightBrace,
            Kind::Plus,
            Kind::Hyphen,
            Kind::Asterisk,
            Kind::Slash,
            Kind::Assign,
            Kind::Bang,
            Kind::Eq,
            Kind::Ne,
            Kind::Lt,
            Kind::Gt,
            Kind::Le,
            Kind::Ge,
        ],
    );
}

#[test]
fn stmts() {
    expect_tokens(
        "let answer = 42;",
        vec![Kind::Let, Kind::Ident, Kind::Assign, Kind::Int, Kind::Semicolon],
    );

    expect_tokens(
        "let is = true;",
        vec![Kind::Let, Kind::Ident, Kind::Assign, Kind::True, Kind::Semicolon],
    );

    expect_tokens(
        "let not = false;",
        vec![Kind::Let, Kind::Ident, Kind::Assign, Kind::False, Kind::Semicolon],
    );

    expect_tokens(
        "let arith = 1 + 4 * 3 / 2;",
        vec![
            Kind::Let,
            Kind::Ident,
            Kind::Assign,
            Kind::Int,
            Kind::Plus,
            Kind::Int,
            Kind::Asterisk,
            Kind::Int,
            Kind::Slash,
            Kind::Int,
            Kind::Semicolon,
        ],
    );

    expect_tokens(
        "let min = fn(x, y) { if x < y { x } else { y } };",
        vec![
            Kind::Let,
            Kind::Ident,
            Kind::Assign,
            Kind::Fn,
            Kind::LeftParen,
            Kind::Ident,
            Kind::Comma,
            Kind::Ident,
            Kind::RightParen,
            Kind::LeftBrace,
            Kind::If,
            Kind::Ident,
            Kind::Lt,
            Kind::Ident,
            Kind::LeftBrace,
            Kind::Ident,
            Kind::RightBrace,
            Kind::Else,
            Kind::LeftBrace,
            Kind::Ident,
            Kind::RightBrace,
            Kind::RightBrace,
            Kind::Semicolon,
        ],
    );

    expect_tokens(
        r#"let seq = [true, "==", !false];"#,
        vec![
            Kind::Let,
            Kind::Ident,
            Kind::Assign,
            Kind::LeftBracket,
            Kind::True,
            Kind::Comma,
            Kind::Str,
            Kind::Comma,
            Kind::Bang,
            Kind::False,
            Kind::RightBracket,
            Kind::Semicolon,
        ],
    );

    expect_tokens(
        r#"let map = {"not true": false, 2: "two", false: 4, "seq": []};"#,
        vec![
            Kind::Let,
            Kind::Ident,
            Kind::Assign,
            Kind::LeftBrace,
            Kind::Str,
            Kind::Colon,
            Kind::False,
            Kind::Comma,
            Kind::Int,
            Kind::Colon,
            Kind::Str,
            Kind::Comma,
            Kind::False,
            Kind::Colon,
            Kind::Int,
            Kind::Comma,
            Kind::Str,
            Kind::Colon,
            Kind::LeftBracket,
            Kind::RightBracket,
            Kind::RightBrace,
            Kind::Semicolon,
        ],
    );
}

fn expect_error(input: &[u8], kind: error::Kind) {
    let mut lexer = Lexer::new(input);
    assert_eq!(lexer.next().unwrap().unwrap_err().kind, kind);
}

#[test]
fn errors() {
    expect_error(b"\"abc", error::Kind::Quote);
    expect_error(b"123456789123456789", error::Kind::Overflow);
    expect_error(b"12g", error::Kind::BadDigit);
    expect_error(b"0x", error::Kind::BadDigit);
    expect_error(b"$", error::Kind::Unexpected);
}

#[test]
fn error_positions() {
    let mut lexer = Lexer::new(b"  \"abc");
    let err = lexer.next().unwrap().unwrap_err();
    assert_eq!((err.pos, err.kind), (2, error::Kind::Quote));

    let mut lexer = Lexer::new(b" 12g");
    let err = lexer.next().unwrap().unwrap_err();
    assert_eq!((err.pos, err.kind), (3, error::Kind::BadDigit));

    let mut lexer = Lexer::new(b"x 99999999999");
    assert_eq!(lexer.next().unwrap().unwrap().kind, Kind::Ident);
    let err = lexer.next().unwrap().unwrap_err();
    assert_eq!((err.pos, err.kind), (2, error::Kind::Overflow));
}

#[test]
fn largest_integer_literal() {
    let lexer = Lexer::new(b"2147483647 2147483648");
    assert_eq!(lexer.lex_int(0).unwrap(), (2147483647, 10));
    assert_eq!(lexer.lex_int(11).unwrap_err().kind, error::Kind::Overflow);
}

#[test]
fn string_literal_that_is_not_utf8() {
    expect_error(&[b'"', 0xff, b'"'], error::Kind::Unexpected);
    let lexer = Lexer::new("\"h\u{e9}\"".as_bytes());
    assert_eq!(lexer.lex_str(0).unwrap(), "h\u{e9}");
}

#[test]
fn comments_and_whitespace_are_skipped() {
    expect_tokens("# one\n  \t 1 # two\n# three", vec![Kind::Int]);
    expect_tokens("#", vec![]);
    expect_tokens("", vec![]);
}

#[test]
fn peek_keeps_the_token() {
    let mut lexer = Lexer::new(b"a 1");
    assert_eq!(lexer.peek().unwrap().unwrap().kind, Kind::Ident);
    assert_eq!(lexer.peek().unwrap().unwrap().kind, Kind::Ident);
    assert_eq!(lexer.next().unwrap().unwrap().kind, Kind::Ident);
    assert_eq!(lexer.next().unwrap().unwrap().kind, Kind::Int);
    assert!(lexer.peek().is_none());
    assert!(lexer.next().is_none());
}

#[test]
fn atoms_and_positions() {
    let mut lexer = Lexer::new(b"  foo_1 letx");
    let tk = lexer.next().unwrap().unwrap();
    assert_eq!((tk.pos, tk.kind), (2, Kind::Ident));
    assert_eq!(lexer.lex_atom(tk.pos).unwrap(), "foo_1");
    let tk = lexer.next().unwrap().unwrap();
    assert_eq!((tk.pos, tk.kind), (8, Kind::Ident));
    assert_eq!(lexer.lex_atom(tk.pos).unwrap(), "letx");
    assert_eq!(lexer.lex_atom(1).unwrap_err().kind, error::Kind::Unexpected);
    assert_eq!(lexer.lex_atom(100).unwrap_err().kind, error::Kind::Unexpected);
}
