use hlwnpa::ast::{Ast, SExpression, Datatype, TypeInfo};

#[test]
fn comparison_type_info() {
    assert!(TypeInfo::Bool == TypeInfo::Bool);
    assert!(TypeInfo::Number == TypeInfo::Number);
    assert!(TypeInfo::Float == TypeInfo::Float);
    assert!(TypeInfo::String == TypeInfo::String);
    assert!(TypeInfo::Array(Box::new(TypeInfo::Number)) == TypeInfo::Array(Box::new(TypeInfo::Number)));
    assert!(TypeInfo::Array(Box::new(TypeInfo::Number)) != TypeInfo::Array(Box::new(TypeInfo::String)));
}

#[test]
fn comparison_type_info_with_operations() {
    assert!(TypeInfo::Number == (TypeInfo::Number + TypeInfo::Number).unwrap());
    assert!(TypeInfo::Float == (TypeInfo::Float + TypeInfo::Number).unwrap());
    assert!(TypeInfo::String == (TypeInfo::String + TypeInfo::Number).unwrap());
}

#[test]
fn convert_from_datatype_and_perform_operation_and_compare() {
    assert!(
        TypeInfo::Number
            == (TypeInfo::from_datatype(&Datatype::Number(10)) + TypeInfo::from_datatype(&Datatype::Number(21))).unwrap()
    );
}

#[test]
fn convert_fn_to_type() {
    let function = Datatype::Function {
        parameters: Box::new(Ast::ExpressionList(vec![])),
        body: Box::new(Ast::ExpressionList(vec![])),
        return_type: TypeInfo::Number,
    };
    assert_eq!(
        TypeInfo::Function { parameters: vec![], return_type: Box::new(TypeInfo::Number) },
        TypeInfo::from_datatype(&function)
    )
}

#[test]
fn convert_parameter_fn_to_type() {
    let function = Datatype::Function {
        parameters: Box::new(Ast::ExpressionList(vec![
            Ast::SExpr(SExpression::TypeAssignment {
                identifier: Box::new(Ast::ValueIdentifier("a".to_string())),
                type_info: Box::new(Ast::Type(TypeInfo::Number)),
            }),
            Ast::SExpr(SExpression::TypeAssignment {
                identifier: Box::new(Ast::ValueIdentifier("b".to_string())),
                type_info: Box::new(Ast::Type(TypeInfo::String)),
            }),
        ])),
        body: Box::new(Ast::ExpressionList(vec![])),
        return_type: TypeInfo::Number,
    };
    assert_eq!(
        TypeInfo::Function { parameters: vec![TypeInfo::Number, TypeInfo::String], return_type: Box::new(TypeInfo::Number) },
        TypeInfo::from_datatype(&function)
    )
}
