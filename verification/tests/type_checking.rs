use hlwnpa::ast::{Ast, SExpression, Datatype, TypeInfo, TypeError};
use hlwnpa::typecheck::{TypeStore, Mutability};
use std::rc::Rc;

fn id(name: &str) -> Box<Ast> {
    Box::new(Ast::ValueIdentifier(name.to_string()))
}

fn lit(d: Datatype) -> Box<Ast> {
    Box::new(Ast::Literal(d))
}

fn number(n: i32) -> Box<Ast> {
    lit(Datatype::Number(n))
}

fn text(s: &str) -> Box<Ast> {
    lit(Datatype::String(s.to_string()))
}

fn let_(name: &str, value: Box<Ast>) -> Ast {
    Ast::SExpr(SExpression::VariableDeclaration { identifier: id(name), ast: value })
}

fn const_(name: &str, value: Box<Ast>) -> Ast {
    Ast::SExpr(SExpression::ConstDeclaration { identifier: id(name), ast: value })
}

fn assign(name: &str, value: Box<Ast>) -> Ast {
    Ast::SExpr(SExpression::Assignment { identifier: id(name), ast: value })
}

fn function(name: &str, body: i32) -> Ast {
    Ast::SExpr(SExpression::DeclareFunction {
        identifier: id(name),
        function_datatype: lit(Datatype::Function {
            parameters: Box::new(Ast::ExpressionList(vec![])),
            body: Box::new(Ast::ExpressionList(vec![Ast::Literal(Datatype::Number(body))])),
            return_type: TypeInfo::Number,
        }),
    })
}

fn call(name: &str) -> Box<Ast> {
    Box::new(Ast::SExpr(SExpression::ExecuteFn { identifier: id(name), parameters: Box::new(Ast::ExpressionList(vec![])) }))
}

fn array_of(n: Datatype, t: TypeInfo) -> Box<Ast> {
    lit(Datatype::Array { value: vec![Rc::new(n)], type_: t })
}

fn check(program: Vec<Ast>) -> Result<Mutability, TypeError> {
    let mut map: TypeStore = TypeStore::new();
    Ast::ExpressionList(program).check_types(&mut map)
}

#[test]
fn throw_error_on_type_mismatch_assignment() {
    let r = check(vec![let_("a", number(5)), assign("a", text("Hello"))]);
    assert_eq!(TypeError::TypeMismatch(TypeInfo::Number, TypeInfo::String), r.unwrap_err());
}

#[test]
fn different_type_reassignment() {
    let r = check(vec![let_("a", number(5)), let_("a", text("Hello"))]);
    assert_eq!(TypeInfo::String, r.unwrap().get_type());
}

#[test]
fn throw_error_on_type_mismatch_addition_assignment() {
    let sum = Box::new(Ast::SExpr(SExpression::Add(text("Hello"), number(5))));
    let r = check(vec![let_("a", number(5)), assign("a", sum)]);
    assert_eq!(TypeError::TypeMismatch(TypeInfo::Number, TypeInfo::String), r.unwrap_err());
}

#[test]
fn throw_error_on_type_mismatch_self_addition_assignment() {
    let sum = Box::new(Ast::SExpr(SExpression::Add(text("Hello"), id("a"))));
    let r = check(vec![let_("a", number(5)), assign("a", sum)]);
    assert_eq!(TypeError::TypeMismatch(TypeInfo::Number, TypeInfo::String), r.unwrap_err());
}

#[test]
fn number_is_number() {
    let r = check(vec![Ast::Literal(Datatype::Number(40))]);
    assert_eq!(TypeInfo::Number, r.unwrap().get_type());
}

#[test]
fn string_is_string() {
    let r = check(vec![Ast::Literal(Datatype::String("Hello".to_string()))]);
    assert_eq!(TypeInfo::String, r.unwrap().get_type());
}

#[test]
fn assignment_is_of_type_string() {
    let r = check(vec![let_("a", text("Hello")), Ast::ValueIdentifier("a".to_string())]);
    assert_eq!(TypeInfo::String, r.unwrap().get_type());
}

#[test]
fn array_is_array() {
    let r = check(vec![
        let_("a", array_of(Datatype::Number(5), TypeInfo::Number)),
        assign("a", array_of(Datatype::Number(6), TypeInfo::Number)),
    ]);
    assert_eq!(TypeInfo::Array(Box::new(TypeInfo::Number)), r.unwrap().get_type());
}

#[test]
fn array_type_mismatch() {
    let r = check(vec![
        let_("a", array_of(Datatype::Number(5), TypeInfo::Number)),
        assign("a", array_of(Datatype::String("Hello".to_string()), TypeInfo::String)),
    ]);
    assert_eq!(
        TypeError::TypeMismatch(TypeInfo::Array(Box::new(TypeInfo::Number)), TypeInfo::Array(Box::new(TypeInfo::String))),
        r.unwrap_err()
    );
}

#[test]
fn throw_error_on_unsupported_division() {
    let r = check(vec![Ast::SExpr(SExpression::Divide(text("Hello"), number(5)))]);
    assert_eq!(TypeError::UnsupportedOperation(TypeInfo::String, TypeInfo::Number), r.unwrap_err());
}

#[test]
fn throw_error_on_function_execution() {
    let r = check(vec![function("my_function", 5), let_("a", text("Hello")), assign("a", call("my_function"))]);
    assert_eq!(TypeError::TypeMismatch(TypeInfo::String, TypeInfo::Number), r.unwrap_err());
}

#[test]
fn type_check_function_execution() {
    let r = check(vec![function("my_function", 5), let_("a", number(7)), assign("a", call("my_function"))]);
    assert_eq!(TypeInfo::Number, r.unwrap().get_type());
}

#[test]
fn mutability_const_redeclaration_throws_error() {
    let r = check(vec![const_("a", number(5)), let_("a", number(4))]);
    assert_eq!(TypeError::CanNotRedeclareConst, r.unwrap_err());
}

#[test]
fn mutability_const_reassignment_throws_error() {
    let r = check(vec![const_("a", number(5)), assign("a", number(4))]);
    assert_eq!(TypeError::CanNotAssignToConstVariable, r.unwrap_err());
}

#[test]
fn mutability_function_reassignment_throws_error() {
    let r = check(vec![function("a", 7), assign("a", number(4))]);
    assert_eq!(TypeError::CanNotAssignToConstVariable, r.unwrap_err());
}

#[test]
fn unsupported_expression_is_reported_by_try() {
    let mut map: TypeStore = TypeStore::new();
    let program = Ast::ExpressionList(vec![Ast::Conditional {
        condition: lit(Datatype::Bool(true)),
        true_expr: number(1),
        false_expr: None,
    }]);
    assert!(program.try_check_types(&mut map).is_none());
}
