use oris::embed::pos_to_line_column;
use oris::{entry, Env};

#[test]
fn a_program_result() {
    let mut env = Env::new();
    let value = entry(&mut env, b"1 + 2 * 3").unwrap();
    assert_eq!(value.as_int(), Some(7));
    assert_eq!(value.as_bool(), None);
    assert_eq!(value.as_str(), None);
    assert!(!value.is_unit());
    assert_eq!(value.render(), "7");
    let value = entry(&mut env, b"let x = 1;").unwrap();
    assert!(value.is_unit());
    assert_eq!(value.as_int(), None);
    let value = entry(&mut env, b"x == 1").unwrap();
    assert_eq!(value.as_bool(), Some(true));
    let value = entry(&mut env, b"type(x)").unwrap();
    assert_eq!(value.as_str(), Some("int"));
    assert_eq!(value.as_int(), None);
}

#[test]
fn seeded_bindings() {
    let mut env = Env::builder()
        .with_builtin()
        .with_bool("flag", true)
        .with_int("answer", 42)
        .with_str("name", "oris")
        .with_int("answer", 43)
        .build();
    assert_eq!(entry(&mut env, b"flag").unwrap().as_bool(), Some(true));
    assert_eq!(entry(&mut env, b"answer").unwrap().as_int(), Some(43));
    assert_eq!(entry(&mut env, b"name + \"!\"").unwrap().as_str(), Some("oris!"));
    assert_eq!(entry(&mut env, b"len(name)").unwrap().as_int(), Some(4));
    let mut bare = Env::builder().with_int("answer", 42).build();
    assert_eq!(entry(&mut bare, b"answer").unwrap().as_int(), Some(42));
    assert_eq!(entry(&mut bare, b"len").unwrap_err().message(), "undefined identifier: len");
}

#[test]
fn every_native_function_is_bound() {
    let mut env = Env::new();
    for name in ["len", "head", "tail", "append", "print", "assert_eq", "type"] {
        let code = format!("type({})", name);
        assert_eq!(entry(&mut env, code.as_bytes()).unwrap().as_str(), Some("builtin"));
    }
}

#[test]
fn errors_have_a_line_and_a_column() {
    let code = b"let a = 1;\nlet b = 2;\n  a + c";
    let mut env = Env::new();
    let error = entry(&mut env, code).unwrap_err();
    assert_eq!(error.pos(), 28);
    assert_eq!(error.line_column(code), (2, 6));
    assert_eq!(error.message(), "undefined identifier: c");
    let error = entry(&mut env, b"nothing").unwrap_err();
    assert_eq!(error.line_column(b"nothing"), (0, 0));
    let error = entry(&mut env, b"1 +\n").unwrap_err();
    assert_eq!(error.line_column(b"1 +\n"), (0, 3));
    let error = entry(&mut env, b"1;\n  (1 * len)").unwrap_err();
    assert_eq!(error.line_column(b"1;\n  (1 * len)"), (1, 5));
}

#[test]
fn line_and_column_of_an_offset() {
    assert_eq!(pos_to_line_column(0, b""), (0, 0));
    assert_eq!(pos_to_line_column(0, b"ab\ncd"), (0, 0));
    assert_eq!(pos_to_line_column(2, b"ab\ncd"), (0, 2));
    assert_eq!(pos_to_line_column(3, b"ab\ncd"), (1, 0));
    assert_eq!(pos_to_line_column(4, b"ab\ncd"), (1, 1));
    assert_eq!(pos_to_line_column(5, b"ab\ncd"), (1, 2));
    assert_eq!(pos_to_line_column(3, b"\n\n\n"), (3, 0));
}

#[test]
fn output_is_handed_out_once() {
    let mut env = Env::new();
    entry(&mut env, b"print(1); print(\"a\", [2])").unwrap();
    assert_eq!(env.take_output(), vec!["1", "\"a\"", "[2]"]);
    assert!(env.take_output().is_empty());
    entry(&mut env, b"print()").unwrap();
    assert_eq!(env.take_output(), vec![""]);
}

#[test]
fn the_call_depth_can_be_set() {
    let code = b"let f = fn(x) { if x <= 1 { 1 } else { 1 + f(x - 1) } }; f(50)";
    let mut env = Env::builder().with_builtin().with_call_depth(49).build();
    assert_eq!(entry(&mut env, code).unwrap_err().message(), "more than 49 calls at once");
    let mut env = Env::builder().with_call_depth(50).build();
    assert_eq!(entry(&mut env, code).unwrap().as_int(), Some(50));
    let mut env = Env::new();
    assert_eq!(entry(&mut env, code).unwrap().as_int(), Some(50));
}
