use hlwnpa::ast::{Ast, SExpression, Datatype, TypeInfo};
use hlwnpa::interpreter::Context;
use hlwnpa::parser::expression;
use hlwnpa::expressions::{group_sexpr_by_precedence, retrieve_operator_and_operands};
use hlwnpa::operator::Operator;
use std::rc::Rc;

fn sexpr(input: &str) -> (usize, Ast) {
    match expression(input) {
        Some((ast, read)) => (read, ast),
        None => panic!("the expression did not parse"),
    }
}

#[test]
fn new_sexpr_single_literal() {
    let (_, value) = sexpr("3");
    assert_eq!(
        Ast::Literal(Datatype::Number(3)),
        value
    );
}

#[test]
fn sexpr_identifier_addition() {
    let (_, value) = sexpr("x + 4");
    assert_eq!(
    Ast::SExpr(SExpression::Add(
        Box::new(Ast::ValueIdentifier("x".to_string())),
        Box::new(Ast::Literal(Datatype::Number(4))),
    )),
    value
    );
}

#[test]
fn expr_precedence_mult_before_add() {
    let (_, value) = sexpr("3 + 4 * 5");
    assert_eq!(
    Ast::SExpr(SExpression::Add(
        Box::new(Ast::Literal(Datatype::Number(3))),
        Box::new(Ast::SExpr(SExpression::Multiply(
            Box::new(Ast::Literal(Datatype::Number(4))),
            Box::new(Ast::Literal(Datatype::Number(5))),
        ))),
    )),
    value
    );
}

#[test]
fn sexpr_multi_mult() {
    let (_, value) = sexpr("3 * 4 * 5");
    assert_eq!(
    Ast::SExpr(SExpression::Multiply(
        Box::new(Ast::SExpr(SExpression::Multiply(
            Box::new(Ast::Literal(Datatype::Number(3))),
            Box::new(Ast::Literal(Datatype::Number(4))),
        ))),
        Box::new(Ast::Literal(Datatype::Number(5))),
    )),
    value
    );
}

#[test]
fn sexpr_multi_mult_four_terms() {
    let (_, value) = sexpr("3 * 4 * 5 * 6");
    assert_eq!(
    Ast::SExpr(SExpression::Multiply(
        Box::new(Ast::SExpr(SExpression::Multiply(
            Box::new(Ast::SExpr(SExpression::Multiply(
                Box::new(Ast::Literal(Datatype::Number(3))),
                Box::new(Ast::Literal(Datatype::Number(4))),
            ))),
            Box::new(Ast::Literal(Datatype::Number(5))),
        ))),
        Box::new(Ast::Literal(Datatype::Number(6)))
    )),
    value
    );
}

#[test]
fn sexpr_add_mult_add() {
    let (_, value) = sexpr("3 + 4 * 5 + 6");
    let mut map = Context::new();
    assert_eq!(Datatype::Number(29), *value.evaluate(&mut map).unwrap());
    assert_eq!(
    Ast::SExpr(SExpression::Add(
        Box::new(Ast::SExpr(SExpression::Add (
            Box::new(Ast::Literal(Datatype::Number(3))),
            Box::new(Ast::SExpr(SExpression::Multiply(
                Box::new(Ast::Literal(Datatype::Number(4))),
                Box::new(Ast::Literal(Datatype::Number(5))),
            ))),
        ))),
        Box::new(Ast::Literal(Datatype::Number(6)))
    )),
    value
    );

}

#[test]
fn new_sexpr_precedence_parse() {
    let (_, value) = sexpr("x > 3 + 5");
    assert_eq!(
    Ast::SExpr(SExpression::GreaterThan(
        Box::new(Ast::ValueIdentifier("x".to_string())),
        Box::new(Ast::SExpr(SExpression::Add(
            Box::new(Ast::Literal(Datatype::Number(3))),
            Box::new(Ast::Literal(Datatype::Number(5)))
        )))
    )),
    value
    );
}

#[test]
fn mod_sexpr_parse_addition() {
    let (_, value) = sexpr("3 + 4");
    assert_eq!(
        Ast::SExpr(SExpression::Add(
            Box::new(Ast::Literal(Datatype::Number(3))),
            Box::new(Ast::Literal(Datatype::Number(4))),
        )),
        value
    );
}

#[test]
fn mod_sexpr_parse_increment() {
    let (_, value) = sexpr("3++");
    assert_eq!(
        Ast::SExpr(SExpression::Increment(
            Box::new(Ast::Literal(Datatype::Number(3))),
        )),
        value
    );
}

#[test]
fn sexpr_parse_invert() {
    let (_, value) = sexpr("!true");
    assert_eq!(
        Ast::SExpr(SExpression::Invert(
            Box::new(Ast::Literal(Datatype::Bool(true))),
        )),
        value
    );
}

#[test]
fn mod_sexpr_parse_negate() {
    let (_, value) = sexpr("-40");

    let mut map = Context::new();

    assert_eq!(
    Ast::SExpr(SExpression::Negate(
        Box::new(Ast::Literal(Datatype::Number(40))),
    )),
    value
    );
    assert_eq!(
        Datatype::Number(-40),
        *value.evaluate(&mut map).unwrap()
    )
}

#[test]
fn sexpr_parse_negate_then_add() {
    let (_, value) = sexpr("-40 + -20");

    let mut map = Context::new();

    assert_eq!(
        Ast::SExpr(SExpression::Add(
            Box::new(Ast::SExpr(SExpression::Negate(
                Box::new(Ast::Literal(Datatype::Number(40))),
            ))),
            Box::new(Ast::SExpr(SExpression::Negate(
                Box::new(Ast::Literal(Datatype::Number(20))),
            ))),
        )),

        value
    );
    assert_eq!(
        Datatype::Number(-60),
        *value.evaluate(&mut map).unwrap()
    )
}

#[test]
fn mod_sexpr_parse_logical_and() {
    let (_, value) = sexpr("true && false");
    assert_eq!(
        Ast::SExpr(SExpression::LogicalAnd(
            Box::new(Ast::Literal(Datatype::Bool(true))),
            Box::new(Ast::Literal(Datatype::Bool(false)))
        )),
        value
    );
}

#[test]
fn mod_sexpr_parse_logical_or() {
    let (_, value) = sexpr("true || false");
    assert_eq!(
        Ast::SExpr(SExpression::LogicalOr(
            Box::new(Ast::Literal(Datatype::Bool(true))),
            Box::new(Ast::Literal(Datatype::Bool(false)))
        )),
        value
    );
}

#[test]
fn mod_sexpr_parse_addition_multiple() {
    let (_, value) = sexpr("3 + 4 + 5");
    assert_eq!(
        Ast::SExpr(SExpression::Add(
            Box::new(Ast::SExpr(SExpression::Add(
                Box::new(Ast::Literal(Datatype::Number(3))),
                Box::new(Ast::Literal(Datatype::Number(4))),
            ))),
            Box::new(Ast::Literal(Datatype::Number(5))),
        )),
        value
    );
}

#[test]
fn mod_sexpr_parens_parse() {
    let (_, value) = sexpr("(3 + 4) + 5");
    assert_eq!(
        Ast::SExpr(SExpression::Add(
            Box::new(Ast::SExpr(SExpression::Add(
                Box::new(Ast::Literal(Datatype::Number(3))),
                Box::new(Ast::Literal(Datatype::Number(4))),
            ))),
            Box::new(Ast::Literal(Datatype::Number(5))),
        )),
        value
    );
}

#[test]
fn mod_sexpr_parens_rhs_parse() {
    let (_, value) = sexpr("3 + (4 + 5)");
    assert_eq!(
        Ast::SExpr(SExpression::Add(
            Box::new(Ast::Literal(Datatype::Number(3))),
            Box::new(Ast::SExpr(SExpression::Add(
                Box::new(Ast::Literal(Datatype::Number(4))),
                Box::new(Ast::Literal(Datatype::Number(5))),
            ))),
        )),
        value
    );
}

#[test]
fn mod_sexpr_parens_triple_parse() {
    let (_, value) = sexpr("3 + (4 + 5 + 6)");
    assert_eq!(
        Ast::SExpr(SExpression::Add(
            Box::new(Ast::Literal(Datatype::Number(3))),
            Box::new(Ast::SExpr(SExpression::Add(
                Box::new(Ast::SExpr(SExpression::Add(
                    Box::new(Ast::Literal(Datatype::Number(4))),
                    Box::new(Ast::Literal(Datatype::Number(5)))
                ))),
                Box::new(Ast::Literal(Datatype::Number(6)))
            ))),
        )),
        value
    );
}

#[test]
fn mod_sexpr_parens_negate_parse_1() {
    let (_, value) = sexpr("!(true)");
    assert_eq!(
        Ast::SExpr(SExpression::Invert(
            Box::new(Ast::Literal(Datatype::Bool(true))),
        )
    ), value);
}

#[test]
fn mod_sexpr_parens_negate_parse() {
    let (_, value) = sexpr("(!true)");
    assert_eq!(
        Ast::SExpr(SExpression::Invert(
            Box::new(Ast::Literal(Datatype::Bool(true))),
        )),
        value
    );
}

#[test]
fn mod_sexpr_eq_and_ineq_parse() {
    // 10 > 3 must evaluate first.
    let (_, value) = sexpr("true == 10 > 3");
    assert_eq!(
    Ast::SExpr(SExpression::Equals(
        Box::new(Ast::Literal(Datatype::Bool(true))),
        Box::new(Ast::SExpr(SExpression::GreaterThan(
            Box::new(Ast::Literal(Datatype::Number(10))),
            Box::new(Ast::Literal(Datatype::Number(3))),
        )))
    )),
    value
    );
}

#[test]
fn mod_sexpr_precedence_1_parse() {
    let (_, value) = sexpr("10 * 3 + 1");
    assert_eq!(
        Ast::SExpr(SExpression::Add(
            Box::new(Ast::SExpr(SExpression::Multiply(
                Box::new(Ast::Literal(Datatype::Number(10))),
                Box::new(Ast::Literal(Datatype::Number(3))),
            ))),
            Box::new(Ast::Literal(Datatype::Number(1))),
        )),
        value
    );
}

#[test]
fn mod_sexpr_precedence_2_parse() {
    let (_, value) = sexpr("(10 * 3) + 1");
    assert_eq!(
        Ast::SExpr(SExpression::Add(
            Box::new(Ast::SExpr(SExpression::Multiply(
                Box::new(Ast::Literal(Datatype::Number(10))),
                Box::new(Ast::Literal(Datatype::Number(3))),
            ))),
            Box::new(Ast::Literal(Datatype::Number(1))),
        )),
        value
    );
}

#[test]
fn mod_sexpr_precedence_3_parse() {
    let (_, value) = sexpr("2 + 10 * 3 + 1");
    assert_eq!(
        Ast::SExpr(SExpression::Add(
            Box::new(Ast::SExpr(SExpression::Add(
                Box::new(Ast::Literal(Datatype::Number(2))),
                Box::new(Ast::SExpr(SExpression::Multiply(
                    Box::new(Ast::Literal(Datatype::Number(10))),
                    Box::new(Ast::Literal(Datatype::Number(3))),
                ))),
            ))),
            Box::new(Ast::Literal(Datatype::Number(1))),

        )),
        value
    );
}

#[test]
fn mod_sexpr_precedence_4_parse() {
    let (_, value) = sexpr("10 * 3 * 2");
    assert_eq!(
        Ast::SExpr(SExpression::Multiply(
            Box::new(Ast::SExpr(SExpression::Multiply(
                Box::new(Ast::Literal(Datatype::Number(10))),
                Box::new(Ast::Literal(Datatype::Number(3))),
            ))),
            Box::new(Ast::Literal(Datatype::Number(2))),
        )),
        value
    );
}

#[test]
fn mod_sexpr_precedence_5_parse() {
    let (_, value) = sexpr("10 * 3 * 2 + 1");

    let mut map = Context::new();
    assert_eq!(
        Ast::SExpr(SExpression::Add(
            Box::new(Ast::SExpr(SExpression::Multiply(
                Box::new(Ast::SExpr(SExpression::Multiply(
                    Box::new(Ast::Literal(Datatype::Number(10))),
                    Box::new(Ast::Literal(Datatype::Number(3))),
                ))),
                Box::new(Ast::Literal(Datatype::Number(2))),
            ))),
            Box::new(Ast::Literal(Datatype::Number(1)))
        )),
        value
    );
    assert_eq!( Datatype::Number(61), *value.evaluate(&mut map).unwrap());
}

#[test]
fn mod_sexpr_precedence_6_parse() {
    let (_, value) = sexpr("2 + 10 * 3 ");
    assert_eq!(
        Ast::SExpr(SExpression::Add(
            Box::new(Ast::Literal(Datatype::Number(2))),
            Box::new(Ast::SExpr(SExpression::Multiply(
                Box::new(Ast::Literal(Datatype::Number(10))),
                Box::new(Ast::Literal(Datatype::Number(3))),
            ))),
        )),
        value
    );
}

#[test]
fn mod_sexpr_precedence_8_parse() {
    let (_, value) = sexpr("10 > 3 + 5");
    assert_eq!(
    Ast::SExpr(SExpression::GreaterThan(
        Box::new(Ast::Literal(Datatype::Number(10))),
        Box::new(Ast::SExpr(SExpression::Add(
            Box::new(Ast::Literal(Datatype::Number(3))),
            Box::new(Ast::Literal(Datatype::Number(5)))
        )))
    )),
    value
    );
}

#[test]
fn mod_sexpr_precedence_9_parse() {
    let (_, value) = sexpr("x > 3 + 5");
    assert_eq!(
    Ast::SExpr(SExpression::GreaterThan(
        Box::new(Ast::ValueIdentifier("x".to_string())),
        Box::new(Ast::SExpr(SExpression::Add(
            Box::new(Ast::Literal(Datatype::Number(3))),
            Box::new(Ast::Literal(Datatype::Number(5)))
        )))
    )),
    value
    );
}

#[test]
fn mod_sexpr_precedence_mult_then_divide_parse() {
    let (_, value) = sexpr("10 * 3 / 2");

    let mut map = Context::new();
    assert_eq!(*value.evaluate(&mut map).unwrap(), Datatype::Number(15));
    assert_eq!(
        Ast::SExpr(SExpression::Divide(
            Box::new(Ast::SExpr(SExpression::Multiply(
                Box::new(Ast::Literal(Datatype::Number(10))),
                Box::new(Ast::Literal(Datatype::Number(3))),
            ))),
            Box::new(Ast::Literal(Datatype::Number(2))),
        )),
        value
    );
}

#[test]
fn sexpr_add_with_increment() {
    let (_, value) = sexpr("5 + 2++");
    assert_eq!(
        (Ast::SExpr(SExpression::Add(
            Box::new(Ast::Literal(Datatype::Number(5))),
            Box::new(Ast::SExpr(SExpression::Increment(
                Box::new(Ast::Literal(Datatype::Number(2)))
            )))
        ))),
    value
    );
}

#[test]
fn sexpr_add_with_increment_first() {
    let (_, value) = sexpr("5++ + 2");
    assert_eq!(
    (Ast::SExpr(SExpression::Add(
        Box::new(Ast::SExpr(SExpression::Increment(
            Box::new(Ast::Literal(Datatype::Number(5)))
        ))),
        Box::new(Ast::Literal(Datatype::Number(2)))
    ))),
    value
    );
}

#[test]
fn parse_array_access_test() {
    let input_string = r##"
    array_identifier[0]
    "##;
    let (_, value) = sexpr(input_string);
    assert_eq!(
        Ast::SExpr(SExpression::AccessArray {
            identifier: Box::new(Ast::ValueIdentifier("array_identifier".to_string())),
            index: Box::new(Ast::Literal(Datatype::Number(0))),
        }),
        value
    )
}

#[test]
fn multiple_dimensional_array_access() {
    let input_string = "
    x[2][1]
    ";
    let (_, ast) = sexpr(input_string);

    assert_eq!(
        Ast::SExpr(SExpression::AccessArray {
            identifier: Box::new(Ast::SExpr(SExpression::AccessArray {
                identifier: Box::new(Ast::ValueIdentifier("x".to_string())),
                index: Box::new(Ast::Literal(Datatype::Number(2)))
            })),
            index: Box::new(Ast::Literal(Datatype::Number(1)))
        }),
        ast
    )

}

#[test]
fn parse_array_access_on_new_array_test() {
    let input_string = r##"
    [12, 13, 14][0]
    "##;
    let (_, value) = sexpr(input_string);
    assert_eq!(
        Ast::SExpr(SExpression::AccessArray {
            identifier: Box::new(Ast::Literal(Datatype::Array {
                value: vec![
                    Rc::new(Datatype::Number(12)),
                    Rc::new(Datatype::Number(13)),
                    Rc::new(Datatype::Number(14)),
                ],
                type_: TypeInfo::Number,
            })),
            index: Box::new(Ast::Literal(Datatype::Number(0))),
        }),
        value
    )
}

#[test]
fn parse_struct_access_name() {
    let input_string = "structVariable.field";
    let (_, value) = sexpr(input_string);
    let expected_ast = Ast::SExpr(SExpression::AccessStructField {
        identifier: Box::new(Ast::ValueIdentifier("structVariable".to_string())),
        field_identifier: Box::new(Ast::ValueIdentifier("field".to_string())),
    });
    assert_eq!(expected_ast, value)
}


#[test]
fn a_tighter_second_operator_takes_the_middle_operand() {
    let (_, value) = sexpr("1 + 2 * 3");
    assert_eq!(
        Ast::SExpr(SExpression::Add(
            Box::new(Ast::Literal(Datatype::Number(1))),
            Box::new(Ast::SExpr(SExpression::Multiply(
                Box::new(Ast::Literal(Datatype::Number(2))),
                Box::new(Ast::Literal(Datatype::Number(3))),
            ))),
        )),
        value
    );
}

#[test]
fn operators_of_one_class_group_left_to_right() {
    let (_, value) = sexpr("8 - 3 - 2");
    assert_eq!(
        Ast::SExpr(SExpression::Subtract(
            Box::new(Ast::SExpr(SExpression::Subtract(
                Box::new(Ast::Literal(Datatype::Number(8))),
                Box::new(Ast::Literal(Datatype::Number(3))),
            ))),
            Box::new(Ast::Literal(Datatype::Number(2))),
        )),
        value
    );
}

#[test]
fn expression_reports_the_characters_read() {
    let (read, _) = sexpr("1 + 2");
    assert_eq!(5, read);
    assert!(expression("").is_none());
}

#[test]
fn precedence_holds_over_longer_runs() {
    let (_, value) = sexpr("1 + 2 * 3 * 4");
    let n = |k: i32| Box::new(Ast::Literal(Datatype::Number(k)));
    assert_eq!(
        Ast::SExpr(SExpression::Add(
            n(1),
            Box::new(Ast::SExpr(SExpression::Multiply(
                Box::new(Ast::SExpr(SExpression::Multiply(n(2), n(3)))),
                n(4),
            ))),
        )),
        value
    );
}

#[test]
fn group_sexpr_by_precedence_groups_tighter_operators_first() {
    let n = |k: i32| Ast::Literal(Datatype::Number(k));
    let grouped = group_sexpr_by_precedence(
        n(1),
        vec![(Operator::Plus, Some(n(2))), (Operator::Times, Some(n(3))), (Operator::Times, Some(n(4)))],
    );
    let mut ctx = Context::new();
    assert_eq!(Datatype::Number(25), *grouped.evaluate(&mut ctx).unwrap());
}

#[test]
fn retrieve_operator_and_operands_refuses_an_assignment() {
    let assignment = Ast::SExpr(SExpression::Assignment {
        identifier: Box::new(Ast::ValueIdentifier("a".to_string())),
        ast: Box::new(Ast::Literal(Datatype::Number(1))),
    });
    assert_eq!(Err("Unsupported SExpression".to_string()), retrieve_operator_and_operands(&assignment));
}
