use hlwnpa::ast::{Ast, SExpression, Datatype};
use hlwnpa::interpreter::Context;
use hlwnpa::parser::expression;

fn sexpr(input: &str) -> (usize, Ast) {
    match expression(input) {
        Some((ast, read)) => (read, ast),
        None => panic!("the expression did not parse"),
    }
}

#[test]
fn sexpr_identifier() {
    let (_, value) = sexpr("x + 4");
    assert_eq!(
    Ast::SExpr(SExpression::Add(
        Box::new(Ast::ValueIdentifier("x".to_string())),
        Box::new(Ast::Literal(Datatype::Number(4))),
    )),
    value
    );
}

#[test]
fn new_sexpr_test_4() {
    let (_, value) = sexpr("3 + 4 * 5");
    assert_eq!(
    Ast::SExpr(SExpression::Add(
        Box::new(Ast::Literal(Datatype::Number(3))),
        Box::new(Ast::SExpr(SExpression::Multiply(
            Box::new(Ast::Literal(Datatype::Number(4))),
            Box::new(Ast::Literal(Datatype::Number(5))),
        ))),
    )),
    value
    );
}

#[test]
fn new_sexpr_test_5() {
    let (_, value) = sexpr("3 * 4 * 5");
    assert_eq!(
    Ast::SExpr(SExpression::Multiply(
        Box::new(Ast::SExpr(SExpression::Multiply(
            Box::new(Ast::Literal(Datatype::Number(3))),
            Box::new(Ast::Literal(Datatype::Number(4))),
        ))),
        Box::new(Ast::Literal(Datatype::Number(5))),
    )),
    value
    );
}

#[test]
fn new_sexpr_test_6() {
    let (_, value) = sexpr("3 * 4 * 5 * 6");
    assert_eq!(
    Ast::SExpr(SExpression::Multiply(
        Box::new(Ast::SExpr(SExpression::Multiply(
            Box::new(Ast::SExpr(SExpression::Multiply(
                Box::new(Ast::Literal(Datatype::Number(3))),
                Box::new(Ast::Literal(Datatype::Number(4))),
            ))),
            Box::new(Ast::Literal(Datatype::Number(5))),
        ))),
        Box::new(Ast::Literal(Datatype::Number(6)))
    )),
    value
    );
}

#[test]
fn binary_expressions_sexpr_parse_addition() {
    let (_, value) = sexpr("3 + 4");
    assert_eq!(
        Ast::SExpr(SExpression::Add(
            Box::new(Ast::Literal(Datatype::Number(3))),
            Box::new(Ast::Literal(Datatype::Number(4))),
        )),
        value
    );
}

#[test]
fn binary_expressions_sexpr_parse_increment() {
    let (_, value) = sexpr("3++");
    assert_eq!(
        Ast::SExpr(SExpression::Increment(
            Box::new(Ast::Literal(Datatype::Number(3))),
        )),
        value
    );
}

#[test]
fn binary_expressions_sexpr_parse_negate() {
    let (_, value) = sexpr("!true");
    assert_eq!(
        Ast::SExpr(SExpression::Invert(
            Box::new(Ast::Literal(Datatype::Bool(true))),
        )),
        value
    );
}

#[test]
fn binary_expressions_sexpr_parse_logical_and() {
    let (_, value) = sexpr("true && false");
    assert_eq!(
        Ast::SExpr(SExpression::LogicalAnd(
            Box::new(Ast::Literal(Datatype::Bool(true))),
            Box::new(Ast::Literal(Datatype::Bool(false)))
        )),
        value
    );
}

#[test]
fn binary_expressions_sexpr_parse_logical_or() {
    let (_, value) = sexpr("true || false");
    assert_eq!(
        Ast::SExpr(SExpression::LogicalOr(
            Box::new(Ast::Literal(Datatype::Bool(true))),
            Box::new(Ast::Literal(Datatype::Bool(false)))
        )),
        value
    );
}

#[test]
fn binary_expressions_sexpr_parse_addition_multiple() {
    let (_, value) = sexpr("3 + 4 + 5");
    assert_eq!(
        Ast::SExpr(SExpression::Add(
            Box::new(Ast::SExpr(SExpression::Add(
                Box::new(Ast::Literal(Datatype::Number(3))),
                Box::new(Ast::Literal(Datatype::Number(4))),
            ))),
            Box::new(Ast::Literal(Datatype::Number(5))),
        )),
        value
    );
}

#[test]
fn binary_expressions_sexpr_parens_parse() {
    let (_, value) = sexpr("(3 + 4) + 5");
    assert_eq!(
        Ast::SExpr(SExpression::Add(
            Box::new(Ast::SExpr(SExpression::Add(
                Box::new(Ast::Literal(Datatype::Number(3))),
                Box::new(Ast::Literal(Datatype::Number(4))),
            ))),
            Box::new(Ast::Literal(Datatype::Number(5))),
        )),
        value
    );
}

#[test]
fn binary_expressions_sexpr_parens_rhs_parse() {
    let (_, value) = sexpr("3 + (4 + 5)");
    assert_eq!(
        Ast::SExpr(SExpression::Add(
            Box::new(Ast::Literal(Datatype::Number(3))),
            Box::new(Ast::SExpr(SExpression::Add(
                Box::new(Ast::Literal(Datatype::Number(4))),
                Box::new(Ast::Literal(Datatype::Number(5))),
            ))),
        )),
        value
    );
}

#[test]
fn binary_expressions_sexpr_parens_triple_parse() {
    let (_, value) = sexpr("3 + (4 + 5 + 6)");
    assert_eq!(
        Ast::SExpr(SExpression::Add(
            Box::new(Ast::Literal(Datatype::Number(3))),
            Box::new(Ast::SExpr(SExpression::Add(
                Box::new(Ast::SExpr(SExpression::Add(
                    Box::new(Ast::Literal(Datatype::Number(4))),
                    Box::new(Ast::Literal(Datatype::Number(5)))
                ))),
                Box::new(Ast::Literal(Datatype::Number(6)))
            ))),
        )),
        value
    );
}

#[test]
fn binary_expressions_sexpr_parens_negate_parse_1() {
    let (_, value) = sexpr("!(true)");
    assert_eq!(
        Ast::SExpr(SExpression::Invert(
            Box::new(Ast::Literal(Datatype::Bool(true))),
        )
    ), value);
}

#[test]
fn binary_expressions_sexpr_parens_negate_parse() {
    let (_, value) = sexpr("(!true)");
    assert_eq!(
        Ast::SExpr(SExpression::Invert(
            Box::new(Ast::Literal(Datatype::Bool(true))),
        )),
        value
    );
}

#[test]
fn binary_expressions_sexpr_mult_parse() {
    let (_, value) = sexpr("10 * 3");
    assert_eq!(
        Ast::SExpr(SExpression::Multiply(
            Box::new(Ast::Literal(Datatype::Number(10))),
            Box::new(Ast::Literal(Datatype::Number(3))),
        )),
        value
    );
}

#[test]
fn binary_expressions_sexpr_div_parse() {
    let (_, value) = sexpr("10 / 3");
    let mut map = Context::new();
    assert_eq!(*value.evaluate(&mut map).unwrap(), Datatype::Number(3));
    assert_eq!(
        Ast::SExpr(SExpression::Divide(
            Box::new(Ast::Literal(Datatype::Number(10))),
            Box::new(Ast::Literal(Datatype::Number(3))),
        )),
        value
    );
}

#[test]
fn binary_expressions_sexpr_ineq_parse() {
    let (_, value) = sexpr("10 > 3");
    assert_eq!(
    Ast::SExpr(SExpression::GreaterThan(
        Box::new(Ast::Literal(Datatype::Number(10))),
        Box::new(Ast::Literal(Datatype::Number(3))),
    )),
    value
    );
}

#[test]
fn binary_expressions_sexpr_eq_parse() {
    let (_, value) = sexpr("10 != 3");
    assert_eq!(
    Ast::SExpr(SExpression::NotEquals(
        Box::new(Ast::Literal(Datatype::Number(10))),
        Box::new(Ast::Literal(Datatype::Number(3))),
    )),
    value
    );
}

#[test]
fn binary_expressions_sexpr_eq_multiple_parse() {
    let (_, value) = sexpr("10 != 3 == true");
    assert_eq!(
    Ast::SExpr(SExpression::Equals(
        Box::new(Ast::SExpr(SExpression::NotEquals(
            Box::new(Ast::Literal(Datatype::Number(10))),
            Box::new(Ast::Literal(Datatype::Number(3))),
        ))),
        Box::new(Ast::Literal(Datatype::Bool(true)))
    )),
    value
    );
}

#[test]
fn binary_expressions_sexpr_eq_and_ineq_parse() {
    // 10 > 3 must evaluate first.
    let (_, value) = sexpr("true == 10 > 3");
    assert_eq!(
    Ast::SExpr(SExpression::Equals(
        Box::new(Ast::Literal(Datatype::Bool(true))),
        Box::new(Ast::SExpr(SExpression::GreaterThan(
            Box::new(Ast::Literal(Datatype::Number(10))),
            Box::new(Ast::Literal(Datatype::Number(3))),
        )))
    )),
    value
    );
}

#[test]
fn binary_expressions_sexpr_precedence_1_parse() {
    let (_, value) = sexpr("10 * 3 + 1");
    assert_eq!(
        Ast::SExpr(SExpression::Add(
            Box::new(Ast::SExpr(SExpression::Multiply(
                Box::new(Ast::Literal(Datatype::Number(10))),
                Box::new(Ast::Literal(Datatype::Number(3))),
            ))),
            Box::new(Ast::Literal(Datatype::Number(1))),
        )),
        value
    );
}

#[test]
fn binary_expressions_sexpr_precedence_2_parse() {
    let (_, value) = sexpr("(10 * 3) + 1");
    assert_eq!(
        Ast::SExpr(SExpression::Add(
            Box::new(Ast::SExpr(SExpression::Multiply(
                Box::new(Ast::Literal(Datatype::Number(10))),
                Box::new(Ast::Literal(Datatype::Number(3))),
            ))),
            Box::new(Ast::Literal(Datatype::Number(1))),
        )),
        value
    );
}

#[test]
fn binary_expressions_sexpr_precedence_3_parse() {
    let (_, value) = sexpr("2 + 10 * 3 + 1");
    assert_eq!(
        Ast::SExpr(SExpression::Add(
            Box::new(Ast::SExpr(SExpression::Add(
                Box::new(Ast::Literal(Datatype::Number(2))),
                Box::new(Ast::SExpr(SExpression::Multiply(
                    Box::new(Ast::Literal(Datatype::Number(10))),
                    Box::new(Ast::Literal(Datatype::Number(3))),
                ))),
            ))),
            Box::new(Ast::Literal(Datatype::Number(1))),

        )),
        value
    );
}

#[test]
fn binary_expressions_sexpr_precedence_4_parse() {
    let (_, value) = sexpr("10 * 3 * 2");
    assert_eq!(
        Ast::SExpr(SExpression::Multiply(
            Box::new(Ast::SExpr(SExpression::Multiply(
                Box::new(Ast::Literal(Datatype::Number(10))),
                Box::new(Ast::Literal(Datatype::Number(3))),
            ))),
            Box::new(Ast::Literal(Datatype::Number(2))),
        )),
        value
    );
}

#[test]
fn binary_expressions_sexpr_precedence_5_parse() {
    let (_, value) = sexpr("10 * 3 * 2 + 1");

    let mut map = Context::new();
    assert_eq!(
        Ast::SExpr(SExpression::Add(
            Box::new(Ast::SExpr(SExpression::Multiply(
                Box::new(Ast::SExpr(SExpression::Multiply(
                    Box::new(Ast::Literal(Datatype::Number(10))),
                    Box::new(Ast::Literal(Datatype::Number(3))),
                ))),
                Box::new(Ast::Literal(Datatype::Number(2))),
            ))),
            Box::new(Ast::Literal(Datatype::Number(1)))
        )),
        value
    );
    assert_eq!( Datatype::Number(61), *value.evaluate(&mut map).unwrap());
}

#[test]
fn binary_expressions_sexpr_precedence_6_parse() {
    let (_, value) = sexpr("2 + 10 * 3 ");
    assert_eq!(
        Ast::SExpr(SExpression::Add(
            Box::new(Ast::Literal(Datatype::Number(2))),
            Box::new(Ast::SExpr(SExpression::Multiply(
                Box::new(Ast::Literal(Datatype::Number(10))),
                Box::new(Ast::Literal(Datatype::Number(3))),
            ))),
        )),
        value
    );
}

#[test]
fn sexpr_precedence_7_parse() {
    let (_, value) = sexpr("10 * 3 * 2 * 1");
    assert_eq!(
        Ast::SExpr(SExpression::Multiply(
            Box::new(Ast::SExpr(SExpression::Multiply(
                Box::new(Ast::SExpr(SExpression::Multiply(
                    Box::new(Ast::Literal(Datatype::Number(10))),
                    Box::new(Ast::Literal(Datatype::Number(3))),
                ))),
                Box::new(Ast::Literal(Datatype::Number(2))),
            ))),
            Box::new(Ast::Literal(Datatype::Number(1)))
        )),
        value
    );
}

#[test]
fn binary_expressions_sexpr_precedence_8_parse() {
    let (_, value) = sexpr("10 > 3 + 5");
    assert_eq!(
    Ast::SExpr(SExpression::GreaterThan(
        Box::new(Ast::Literal(Datatype::Number(10))),
        Box::new(Ast::SExpr(SExpression::Add(
            Box::new(Ast::Literal(Datatype::Number(3))),
            Box::new(Ast::Literal(Datatype::Number(5)))
        )))
    )),
    value
    );
}

#[test]
fn binary_expressions_sexpr_precedence_9_parse() {
    let (_, value) = sexpr("x > 3 + 5");
    assert_eq!(
    Ast::SExpr(SExpression::GreaterThan(
        Box::new(Ast::ValueIdentifier("x".to_string())),
        Box::new(Ast::SExpr(SExpression::Add(
            Box::new(Ast::Literal(Datatype::Number(3))),
            Box::new(Ast::Literal(Datatype::Number(5)))
        )))
    )),
    value
    );
}

#[test]
fn binary_expressions_sexpr_precedence_mult_then_divide_parse() {
    let (_, value) = sexpr("10 * 3 / 2");

    let mut map = Context::new();
    assert_eq!(*value.evaluate(&mut map).unwrap(), Datatype::Number(15));
    assert_eq!(
        Ast::SExpr(SExpression::Divide(
            Box::new(Ast::SExpr(SExpression::Multiply(
                Box::new(Ast::Literal(Datatype::Number(10))),
                Box::new(Ast::Literal(Datatype::Number(3))),
            ))),
            Box::new(Ast::Literal(Datatype::Number(2))),
        )),
        value
    );
}

#[test]
fn old_sexpr_sexpr_eq_parse() {
    let (_, value) = sexpr("10 != 3");
    assert_eq!(
    Ast::SExpr(SExpression::NotEquals(
        Box::new(Ast::Literal(Datatype::Number(10))),
        Box::new(Ast::Literal(Datatype::Number(3))),
    )),
    value
    );
}

#[test]
fn old_sexpr_sexpr_eq_multiple_parse() {
    let (_, value) = sexpr("10 != 3 == true");
    assert_eq!(
    Ast::SExpr(SExpression::Equals(
        Box::new(Ast::SExpr(SExpression::NotEquals(
            Box::new(Ast::Literal(Datatype::Number(10))),
            Box::new(Ast::Literal(Datatype::Number(3))),
        ))),
        Box::new(Ast::Literal(Datatype::Bool(true)))
    )),
    value
    );
}

#[test]
fn old_sexpr_sexpr_div_parse() {
    let (_, value) = sexpr("10 / 3");
    let mut map = Context::new();
    assert_eq!(*value.evaluate(&mut map).unwrap(), Datatype::Number(3));
    assert_eq!(
        Ast::SExpr(SExpression::Divide(
            Box::new(Ast::Literal(Datatype::Number(10))),
            Box::new(Ast::Literal(Datatype::Number(3))),
        )),
        value
    );
}

#[test]
fn old_sexpr_sexpr_ineq_parse() {
    let (_, value) = sexpr("10 > 3");
    assert_eq!(
    Ast::SExpr(SExpression::GreaterThan(
        Box::new(Ast::Literal(Datatype::Number(10))),
        Box::new(Ast::Literal(Datatype::Number(3))),
    )),
    value
    );
}

#[test]
fn old_sexpr_sexpr_mult_parse() {
    let (_, value) = sexpr("10 * 3");
    assert_eq!(
        Ast::SExpr(SExpression::Multiply(
            Box::new(Ast::Literal(Datatype::Number(10))),
            Box::new(Ast::Literal(Datatype::Number(3))),
        )),
        value
    );
}
