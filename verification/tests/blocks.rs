use hlwnpa::ast::{Ast, Datatype, SExpression, TypeInfo};
use hlwnpa::parser::{program, read_body};
use std::rc::Rc;

fn body(input: &str) -> (usize, Ast) {
    match read_body(input) {
        Some((ast, read)) => (read, ast),
        None => panic!("the block did not parse: {}", input),
    }
}

fn function(input: &str) -> Ast {
    match program(input) {
        Some((Ast::ExpressionList(mut items), _)) if items.len() == 1 => items.remove(0),
        other => panic!("unexpected: {:?}", other),
    }
}

#[test]
fn body_parse_body_nocheck_test() {
    let input_string = "{ ( a + 8 ) }";
    let (_, _) = body(input_string);
}

#[test]
fn body_parse_simple_body_test() {
    let input_string = "{ true }";
    let (_, _) = body(input_string);
}

#[test]
fn body_parse_simple_body_assignment_test() {
    let input_string = "{ let a := 8 }";
    let (_, _) = body(input_string);
}

#[test]
fn a_body_holds_its_statements_in_order() {
    let (read, value) = body("{ let a := 8\n a }");
    assert_eq!(17, read);
    assert_eq!(
        Ast::ExpressionList(vec![
            Ast::SExpr(SExpression::VariableDeclaration {
                identifier: Box::new(Ast::ValueIdentifier("a".to_string())),
                ast: Box::new(Ast::Literal(Datatype::Number(8))),
            }),
            Ast::ValueIdentifier("a".to_string()),
        ]),
        value
    );
    assert!(read_body("a + 8").is_none());
}

fn parameter(name: &str, type_info: Ast) -> Ast {
    Ast::SExpr(SExpression::TypeAssignment {
        identifier: Box::new(Ast::ValueIdentifier(name.to_string())),
        type_info: Box::new(type_info),
    })
}

fn declaration(parameters: Vec<Ast>, body: Vec<Ast>, return_type: TypeInfo) -> Ast {
    Ast::SExpr(SExpression::DeclareFunction {
        identifier: Box::new(Ast::ValueIdentifier("test_function".to_string())),
        function_datatype: Box::new(Ast::Literal(Datatype::Function {
            parameters: Box::new(Ast::ExpressionList(parameters)),
            body: Box::new(Ast::ExpressionList(body)),
            return_type,
        })),
    })
}

fn a_plus_8() -> Ast {
    Ast::SExpr(SExpression::Add(
        Box::new(Ast::ValueIdentifier("a".to_string())),
        Box::new(Ast::Literal(Datatype::Number(8))),
    ))
}

#[test]
fn function_parse_whole_function_number_input_returns_number_test() {
    let input_string = "fn test_function ( a : Number ) -> Number { a + 8 }";
    let value = function(input_string);
    let expected_fn = declaration(vec![parameter("a", Ast::Type(TypeInfo::Number))], vec![a_plus_8()], TypeInfo::Number);
    assert_eq!(expected_fn, value)
}

#[test]
fn a_custom_parameter_type_is_read_as_a_struct_type() {
    let value = function("fn test_function ( a : CustomType ) -> [Number] { [0] }");
    let expected_fn = declaration(
        vec![parameter("a", Ast::Type(TypeInfo::StructType { identifier: "CustomType".to_string() }))],
        vec![Ast::Literal(Datatype::Array { value: vec![Rc::new(Datatype::Number(0))], type_: TypeInfo::Number })],
        TypeInfo::Array(Box::new(TypeInfo::Number)),
    );
    assert_eq!(expected_fn, value)
}
