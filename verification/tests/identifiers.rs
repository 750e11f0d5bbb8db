use hlwnpa::ast::{Ast, Datatype};
use hlwnpa::parser::{expression, read_identifier};

fn identifier(input: &str) -> Option<(usize, Ast)> {
    match read_identifier(input) {
        Some((ast, read)) => Some((read, ast)),
        None => None,
    }
}

fn literal(input: &str) -> (usize, Ast) {
    match expression(input) {
        Some((ast, read)) => (read, ast),
        None => panic!("the literal did not parse"),
    }
}

#[test]
fn identifier_parse_identifier_characters_test() {
    let input_string = "name ";
    let (_, _) = match identifier(input_string) {
        Some(v) => v,
        None => panic!("no identifier"),
    };
}

#[test]
fn identifier_parse_identifier_alphanumeric_test() {
    let (_, value) = identifier("variableName").unwrap();
    assert_eq!(Ast::ValueIdentifier("variableName".to_string()), value)
}

#[test]
fn identifier_parse_identifier_underscore_test() {
    let (_, value) = identifier("variable_name ").unwrap();
    assert_eq!(Ast::ValueIdentifier("variable_name".to_string()), value)
}

#[test]
fn parse_new_id() {
    let (_, value) = identifier("a").unwrap();
    assert_eq!(Ast::ValueIdentifier("a".to_string()), value);
}

#[test]
fn parse_fail_new_id_reserved_character() {
    if let Some((_, v)) = identifier("+") {
        panic!("parse succeeded with value: {:?}", v)
    }
}

#[test]
fn parse_fail_new_id_contains_reserved_character() {
    let (_, value) = identifier("hello+world").unwrap();
    assert_eq!(Ast::ValueIdentifier("hello".to_string()), value)
}

#[test]
fn parse_fail_new_id_reserved_word() {
    if let Some((_, v)) = identifier("struct ") {
        panic!("parse succeeded with value: {:?}", v)
    }
}

#[test]
fn parse_succeed_new_id_reserved_word() {
    let (_, value) = identifier("struct_thing").unwrap();
    assert_eq!(Ast::ValueIdentifier("struct_thing".to_string()), value)
}

#[test]
fn identifier_reads_past_leading_whitespace() {
    let (read, value) = identifier("   abc def").unwrap();
    assert_eq!(Ast::ValueIdentifier("abc".to_string()), value);
    assert_eq!(6, read);
}

#[test]
fn boolean_parse_bool_literal_test() {
    let (_, value) = literal("true");
    assert_eq!(Ast::Literal(Datatype::Bool(true)), value)
}

#[test]
fn number_parse_number_test() {
    let (_, value) = literal("42");
    match value {
        Ast::Literal(Datatype::Number(n)) => assert_eq!(42, n),
        other => panic!("not a number: {:?}", other),
    }
}

#[test]
fn number_parse_number_literal_test() {
    let (_, value) = literal("42");
    assert_eq!(Ast::Literal(Datatype::Number(42)), value)
}

#[test]
fn verify_literal_with_escapes_in_strings() {
    let input_string = "
        \"\nHello\nWorld\n\"
        ";
    let (_, ast) = literal(input_string);
    assert_eq!(Ast::Literal(Datatype::String("\nHello\nWorld\n".to_string())), ast)
}

#[test]
fn literal_can_capture_number() {
    let (_, ast) = literal("40");
    assert_eq!(Ast::Literal(Datatype::Number(40)), ast)
}
