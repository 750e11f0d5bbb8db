use hlwnpa::ast::{Ast, SExpression, Datatype, TypeInfo, LangError};
use hlwnpa::interpreter::Context;
use std::rc::Rc;

fn lit(d: Datatype) -> Box<Ast> {
    Box::new(Ast::Literal(d))
}

fn id(name: &str) -> Box<Ast> {
    Box::new(Ast::ValueIdentifier(name.to_string()))
}

#[test]
fn plus_test() {
    let mut map = Context::new();
    let ast = Ast::SExpr(SExpression::Add(lit(Datatype::Number(3)), lit(Datatype::Number(6))));
    assert_eq!(Datatype::Number(9), *ast.evaluate(&mut map).unwrap())
}

#[test]
fn string_plus_test() {
    let mut map = Context::new();
    let ast = Ast::SExpr(SExpression::Add(
        lit(Datatype::String("Hello".to_string())),
        lit(Datatype::String(" World!".to_string())),
    ));
    assert_eq!(Datatype::String("Hello World!".to_string()), *ast.evaluate(&mut map).unwrap())
}

#[test]
fn minus_test() {
    let mut map = Context::new();
    let ast = Ast::SExpr(SExpression::Subtract(lit(Datatype::Number(6)), lit(Datatype::Number(3))));
    assert_eq!(Datatype::Number(3), *ast.evaluate(&mut map).unwrap())
}

#[test]
fn minus_negative_test() {
    let mut map = Context::new();
    let ast = Ast::SExpr(SExpression::Subtract(lit(Datatype::Number(3)), lit(Datatype::Number(6))));
    assert_eq!(Datatype::Number(-3), *ast.evaluate(&mut map).unwrap())
}

#[test]
fn multiplication_test() {
    let mut map = Context::new();
    let ast = Ast::SExpr(SExpression::Multiply(lit(Datatype::Number(6)), lit(Datatype::Number(3))));
    assert_eq!(Datatype::Number(18), *ast.evaluate(&mut map).unwrap())
}

#[test]
fn division_test() {
    let mut map = Context::new();
    let ast = Ast::SExpr(SExpression::Divide(lit(Datatype::Number(6)), lit(Datatype::Number(3))));
    assert_eq!(Datatype::Number(2), *ast.evaluate(&mut map).unwrap())
}

#[test]
fn integer_division_test() {
    let mut map = Context::new();
    let ast = Ast::SExpr(SExpression::Divide(lit(Datatype::Number(5)), lit(Datatype::Number(3))));
    assert_eq!(Datatype::Number(1), *ast.evaluate(&mut map).unwrap())
}

#[test]
fn division_by_zero_test() {
    let mut map = Context::new();
    let ast = Ast::SExpr(SExpression::Divide(lit(Datatype::Number(5)), lit(Datatype::Number(0))));
    assert_eq!(LangError::DivideByZero, ast.evaluate(&mut map).err().unwrap())
}

#[test]
fn modulo_test() {
    let mut map = Context::new();
    let ast = Ast::SExpr(SExpression::Modulo(lit(Datatype::Number(8)), lit(Datatype::Number(3))));
    assert_eq!(Datatype::Number(2), *ast.evaluate(&mut map).unwrap())
}

#[test]
fn equality_test() {
    let mut map = Context::new();
    let ast = Ast::SExpr(SExpression::Equals(lit(Datatype::Number(3)), lit(Datatype::Number(3))));
    assert_eq!(Datatype::Bool(true), *ast.evaluate(&mut map).unwrap())
}

#[test]
fn greater_than_test() {
    let mut map = Context::new();
    let ast = Ast::SExpr(SExpression::GreaterThan(lit(Datatype::Number(4)), lit(Datatype::Number(3))));
    assert_eq!(Datatype::Bool(true), *ast.evaluate(&mut map).unwrap())
}

#[test]
fn less_than_test() {
    let mut map = Context::new();
    let ast = Ast::SExpr(SExpression::LessThan(lit(Datatype::Number(2)), lit(Datatype::Number(3))));
    assert_eq!(Datatype::Bool(true), *ast.evaluate(&mut map).unwrap())
}

#[test]
fn greater_than_or_equal_test() {
    let mut map = Context::new();
    let ast = Ast::SExpr(SExpression::GreaterThanOrEqual(lit(Datatype::Number(4)), lit(Datatype::Number(3))));
    assert_eq!(Datatype::Bool(true), *ast.evaluate(&mut map).unwrap());

    let mut map = Context::new();
    let equals_ast = Ast::SExpr(SExpression::GreaterThanOrEqual(lit(Datatype::Number(5)), lit(Datatype::Number(5))));
    assert_eq!(Datatype::Bool(true), *equals_ast.evaluate(&mut map).unwrap());
}

#[test]
fn less_than_or_equal_test() {
    let mut map = Context::new();
    let ast = Ast::SExpr(SExpression::LessThanOrEqual(lit(Datatype::Number(2)), lit(Datatype::Number(3))));
    assert_eq!(Datatype::Bool(true), *ast.evaluate(&mut map).unwrap());

    let mut map = Context::new();
    let equals_ast = Ast::SExpr(SExpression::LessThanOrEqual(lit(Datatype::Number(5)), lit(Datatype::Number(5))));
    assert_eq!(Datatype::Bool(true), *equals_ast.evaluate(&mut map).unwrap());
}

#[test]
fn assignment_test() {
    let mut map = Context::new();
    let ast = Ast::ExpressionList(vec![
        Ast::SExpr(SExpression::Assignment { identifier: id("a"), ast: lit(Datatype::Number(6)) }),
        Ast::SExpr(SExpression::Add(id("a"), lit(Datatype::Number(5)))),
    ]);
    assert_eq!(Datatype::Number(11), *ast.evaluate(&mut map).unwrap())
}

#[test]
fn variable_copy_test() {
    let mut map = Context::new();
    let ast = Ast::ExpressionList(vec![
        Ast::SExpr(SExpression::Assignment { identifier: id("a"), ast: lit(Datatype::Number(6)) }),
        Ast::SExpr(SExpression::Assignment { identifier: id("b"), ast: id("a") }),
        Ast::SExpr(SExpression::Add(id("b"), lit(Datatype::Number(5)))),
    ]);
    assert_eq!(Datatype::Number(11), *ast.evaluate(&mut map).unwrap())
}

#[test]
fn reassignment_test() {
    let mut map = Context::new();
    let ast = Ast::ExpressionList(vec![
        Ast::SExpr(SExpression::Assignment { identifier: id("a"), ast: lit(Datatype::Number(6)) }),
        Ast::SExpr(SExpression::Assignment { identifier: id("a"), ast: lit(Datatype::Number(3)) }),
        Ast::SExpr(SExpression::Add(id("a"), lit(Datatype::Number(5)))),
    ]);
    assert_eq!(Datatype::Number(8), *ast.evaluate(&mut map).unwrap())
}

#[test]
fn conditional_test() {
    let mut map = Context::new();
    let ast = Ast::Conditional {
        condition: lit(Datatype::Bool(true)),
        true_expr: lit(Datatype::Number(7)),
        false_expr: None,
    };
    assert_eq!(Datatype::Number(7), *ast.evaluate(&mut map).unwrap())
}

#[test]
fn conditional_with_else_test() {
    let mut map = Context::new();
    let ast = Ast::Conditional {
        condition: lit(Datatype::Bool(false)),
        true_expr: lit(Datatype::Number(7)),
        false_expr: Some(lit(Datatype::Number(2))),
    };
    assert_eq!(Datatype::Number(2), *ast.evaluate(&mut map).unwrap())
}

#[test]
fn basic_function_test() {
    let mut map = Context::new();
    let ast = Ast::ExpressionList(vec![
        Ast::SExpr(SExpression::Assignment {
            identifier: id("a"),
            ast: lit(Datatype::Function {
                parameters: Box::new(Ast::ExpressionList(vec![])),
                body: lit(Datatype::Number(32)),
                return_type: TypeInfo::Number,
            }),
        }),
        Ast::SExpr(SExpression::ExecuteFn { identifier: id("a"), parameters: Box::new(Ast::ExpressionList(vec![])) }),
    ]);
    assert_eq!(Datatype::Number(32), *ast.evaluate(&mut map).unwrap())
}

#[test]
fn function_with_parameter_test() {
    let mut map = Context::new();
    let ast = Ast::ExpressionList(vec![
        Ast::SExpr(SExpression::Assignment {
            identifier: id("a"),
            ast: lit(Datatype::Function {
                parameters: Box::new(Ast::ExpressionList(vec![Ast::SExpr(SExpression::TypeAssignment {
                    identifier: id("b"),
                    type_info: Box::new(Ast::Type(TypeInfo::Number)),
                })])),
                body: id("b"),
                return_type: TypeInfo::Number,
            }),
        }),
        Ast::SExpr(SExpression::ExecuteFn {
            identifier: id("a"),
            parameters: Box::new(Ast::ExpressionList(vec![Ast::Literal(Datatype::Number(7))])),
        }),
    ]);
    assert_eq!(Datatype::Number(7), *ast.evaluate(&mut map).unwrap())
}

#[test]
fn function_with_two_parameters_addition_test() {
    let mut map = Context::new();
    let ast = Ast::ExpressionList(vec![
        Ast::SExpr(SExpression::Assignment {
            identifier: id("add_two_numbers"),
            ast: lit(Datatype::Function {
                parameters: Box::new(Ast::ExpressionList(vec![
                    Ast::SExpr(SExpression::TypeAssignment { identifier: id("b"), type_info: Box::new(Ast::Type(TypeInfo::Number)) }),
                    Ast::SExpr(SExpression::TypeAssignment { identifier: id("c"), type_info: Box::new(Ast::Type(TypeInfo::Number)) }),
                ])),
                body: Box::new(Ast::SExpr(SExpression::Add(id("b"), id("c")))),
                return_type: TypeInfo::Number,
            }),
        }),
        Ast::SExpr(SExpression::ExecuteFn {
            identifier: id("add_two_numbers"),
            parameters: Box::new(Ast::ExpressionList(vec![
                Ast::Literal(Datatype::Number(7)),
                Ast::Literal(Datatype::Number(5)),
            ])),
        }),
    ]);
    assert_eq!(Datatype::Number(12), *ast.evaluate(&mut map).unwrap())
}

fn three_numbers() -> Datatype {
    Datatype::Array {
        value: vec![Rc::new(Datatype::Number(12)), Rc::new(Datatype::Number(14)), Rc::new(Datatype::Number(16))],
        type_: TypeInfo::Number,
    }
}

#[test]
fn array_access_test() {
    let mut map = Context::new();
    let ast = Ast::SExpr(SExpression::AccessArray { identifier: lit(three_numbers()), index: lit(Datatype::Number(0)) });
    assert_eq!(Datatype::Number(12), *ast.evaluate(&mut map).unwrap())
}

#[test]
fn array_incorrect_access_test() {
    let mut map = Context::new();
    let ast = Ast::SExpr(SExpression::AccessArray { identifier: lit(three_numbers()), index: lit(Datatype::Number(3)) });
    assert_eq!(LangError::OutOfBoundsArrayAccess, ast.evaluate(&mut map).unwrap_err())
}

fn my_struct_declaration() -> Ast {
    Ast::SExpr(SExpression::StructDeclaration {
        identifier: id("MyStruct"),
        struct_type_info: Box::new(Ast::ExpressionList(vec![Ast::SExpr(SExpression::TypeAssignment {
            identifier: id("Field1"),
            type_info: Box::new(Ast::Type(TypeInfo::Number)),
        })])),
    })
}

#[test]
fn struct_declaration_test() {
    let mut map = Context::new();
    let ast = my_struct_declaration();
    let _ = ast.evaluate(&mut map);
    let expected = vec![(
        "MyStruct".to_string(),
        Rc::new(Datatype::StructType {
            identifier: "MyStruct".to_string(),
            type_information: TypeInfo::Struct { map: vec![("Field1".to_string(), TypeInfo::Number)] },
        }),
    )];
    assert_eq!(expected, map.variables)
}

#[test]
fn struct_creation_test() {
    let mut map = Context::new();
    let _ = my_struct_declaration().evaluate(&mut map);
    let creation_ast = Ast::SExpr(SExpression::CreateStruct {
        identifier: id("MyStruct"),
        struct_datatype: Box::new(Ast::ExpressionList(vec![Ast::SExpr(SExpression::FieldAssignment {
            identifier: id("Field1"),
            ast: lit(Datatype::Number(8)),
        })])),
    });
    let struct_instance = creation_ast.evaluate(&mut map).unwrap();
    assert_eq!(Datatype::Struct { map: vec![("Field1".to_string(), Datatype::Number(8))] }, *struct_instance)
}

#[test]
fn function_hoisting_test() {
    let mut map = Context::new();
    let function = || {
        Ast::SExpr(SExpression::DeclareFunction {
            identifier: id("fn"),
            function_datatype: lit(Datatype::Function {
                parameters: Box::new(Ast::ExpressionList(vec![])),
                body: lit(Datatype::Number(32)),
                return_type: TypeInfo::Number,
            }),
        })
    };
    let assign = || Ast::SExpr(SExpression::Assignment { identifier: id("a"), ast: lit(Datatype::Number(6)) });
    let call = || Ast::SExpr(SExpression::ExecuteFn { identifier: id("fn"), parameters: Box::new(Ast::ExpressionList(vec![])) });
    let ast = Ast::ExpressionList(vec![assign(), function(), call()]);
    let hoisted_ast = ast.hoist_functions_and_structs();
    let expected_hoisted_ast = Ast::ExpressionList(vec![function(), assign(), call()]);
    assert_eq!(hoisted_ast, expected_hoisted_ast);
    assert_eq!(Datatype::Number(32), *hoisted_ast.evaluate(&mut map).unwrap());
}
