use hlwnpa::ast::{Ast, SExpression, Datatype, TypeInfo};
use hlwnpa::interpreter::Context;
use hlwnpa::parser::program;
use hlwnpa::repl::add_std_functions;
use std::rc::Rc;

fn parse(input: &str) -> Ast {
    match program(input) {
        Some((ast, _)) => ast,
        None => panic!("the program did not parse"),
    }
}

fn run(input: &str) -> Rc<Datatype> {
    let mut map = Context::new();
    let ast = parse(input);
    ast.evaluate(&mut map).unwrap()
}

fn id(name: &str) -> Box<Ast> {
    Box::new(Ast::ValueIdentifier(name.to_string()))
}

fn lit(d: Datatype) -> Box<Ast> {
    Box::new(Ast::Literal(d))
}

#[test]
fn parse_simple_program_and_validate_ast_test() {
    let value = parse("\n     let x := 3 + 4\n     fn test_function ( a : Number ) -> Number { a + 8 }\n     test_function(x)");
    let expected_assignment = Ast::SExpr(SExpression::VariableDeclaration {
        identifier: id("x"),
        ast: Box::new(Ast::SExpr(SExpression::Add(lit(Datatype::Number(3)), lit(Datatype::Number(4))))),
    });
    let expected_fn = Ast::SExpr(SExpression::DeclareFunction {
        identifier: id("test_function"),
        function_datatype: lit(Datatype::Function {
            parameters: Box::new(Ast::ExpressionList(vec![Ast::SExpr(SExpression::TypeAssignment {
                identifier: id("a"),
                type_info: Box::new(Ast::Type(TypeInfo::Number)),
            })])),
            body: Box::new(Ast::ExpressionList(vec![Ast::SExpr(SExpression::Add(id("a"), lit(Datatype::Number(8))))])),
            return_type: TypeInfo::Number,
        }),
    });
    let expected_fn_call = Ast::SExpr(SExpression::ExecuteFn {
        identifier: id("test_function"),
        parameters: Box::new(Ast::ExpressionList(vec![Ast::ValueIdentifier("x".to_string())])),
    });
    assert_eq!(Ast::ExpressionList(vec![expected_assignment, expected_fn, expected_fn_call]), value)
}

#[test]
fn mod_parse_program_with_only_identifier_test() {
    assert_eq!(Ast::ExpressionList(vec![Ast::ValueIdentifier("x".to_string())]), parse("x"))
}

#[test]
fn mod_parse_program_with_if_test() {
    assert_eq!(
        Ast::ExpressionList(vec![Ast::Conditional {
            condition: lit(Datatype::Bool(true)),
            true_expr: Box::new(Ast::ExpressionList(vec![Ast::Literal(Datatype::Bool(true))])),
            false_expr: Some(Box::new(Ast::ExpressionList(vec![Ast::Literal(Datatype::Bool(true))]))),
        }]),
        parse("if true { true } else { true }")
    )
}

#[test]
fn parse_program_with_array_assignment() {
    let _ = parse("\n         let myArray := [8, 3]\n        ");
}

#[test]
fn parse_program_with_array_access() {
    let _ = parse("\n         let value_in_array := existing_array[8]\n        ");
}

#[test]
fn parse_program_with_struct_definition() {
    let _ = parse("struct MyStruct {\n            a : Number\n        }\n        ");
}

#[test]
fn parse_program_with_struct_creation() {
    let _ = parse("new MyStruct {\n            a : 8\n        }\n        ");
}

#[test]
fn parse_program_with_struct_instance_creation_and_assignment() {
    let _ = parse("let instance := new MyStruct {\n            a : 8\n        }\n        ");
}

#[test]
fn parse_program_with_struct_access_and_assignment() {
    let _ = parse("\n        let outside_value := myStructInstance.field\n        ");
}

#[test]
fn verify_program_with_escapes_in_strings() {
    assert_eq!(
        Ast::ExpressionList(vec![Ast::Literal(Datatype::String("\nHello\nWorld\n".to_string()))]),
        parse("\n        \"\nHello\nWorld\n\"\n        ")
    )
}

#[test]
fn while_loop_parse_while_loop_test() {
    assert_eq!(
        Ast::ExpressionList(vec![Ast::SExpr(SExpression::Loop {
            conditional: lit(Datatype::Bool(true)),
            body: Box::new(Ast::ExpressionList(vec![Ast::Literal(Datatype::Bool(true))])),
        })]),
        parse("while true { true }")
    )
}

#[test]
fn parse_while_loop_2() {
    assert_eq!(
        Ast::ExpressionList(vec![Ast::SExpr(SExpression::Loop {
            conditional: Box::new(Ast::SExpr(SExpression::GreaterThan(id("x"), lit(Datatype::Number(5))))),
            body: Box::new(Ast::ExpressionList(vec![Ast::Literal(Datatype::Bool(true))])),
        })]),
        parse("while (x > 5) { true }")
    )
}

#[test]
fn for_loop_parse() {
    let _ = parse("\n        for i in [0,2] {\n            3\n        }\n         ");
}

#[test]
fn program_parse_and_execute_integration_test_1() {
    assert_eq!(
        Datatype::Number(15),
        *run("\n     let x := 7\n     fn test_function ( a : Number ) -> Number {  a + 8  }\n     test_function(x)")
    );
}

#[test]
fn program_parse_and_execute_integration_test_2() {
    assert_eq!(Datatype::Number(16), *run("\n     fn test_function ( a : Number ) -> Number { a + 8  }\n     test_function(8)"));
}

#[test]
fn program_parse_and_execute_integration_test_3() {
    assert_eq!(Datatype::Number(16), *run("\n     fn test_function ( a : Number ) -> Number { a + 8 }\n     test_function( 6 + 2 )"));
}

#[test]
fn program_parse_and_execute_integration_test_4() {
    assert_eq!(
        Datatype::Number(16),
        *run("\n     fn test_function ( a : Number ) -> Number {\n         a + 8\n     }\n     test_function(8)")
    );
}

#[test]
fn program_multiple_parameter_function_integration_test() {
    assert_eq!(
        Datatype::Number(11),
        *run("\n     fn add_two_numbers ( a : Number, b : Number) -> Number {\n         a + b\n     }\n     add_two_numbers(8, 3)")
    );
}

#[test]
fn program_function_internals_does_not_clobber_outer_stack_integration_test() {
    assert_eq!(
        Datatype::Number(2),
        *run("\n     let a := 2\n     fn add_two_numbers ( a : Number, b : Number) -> Number {\n        let a := a +  b\n        a\n     }\n     add_two_numbers(8, 3)\n     a\n     ")
    );
}

#[test]
fn program_string_coercion_integration_test() {
    assert_eq!(
        Datatype::String("Hi 5".to_string()),
        *run("\n     let x := \"Hi \"\n     fn test_function ( a : String ) -> String {  a + 5  }\n     test_function(x)")
    );
}

#[test]
fn program_if_test() {
    assert_eq!(Datatype::Number(40), *run("\n     let x := 3\n     if x == 3 {\n        let x := 40\n     }\n     x"));
}

#[test]
fn program_while_loop_test() {
    assert_eq!(Datatype::Number(40), *run("\n     let x := 3\n     while x == 3 {\n        let x := 40\n     }\n     x"));
}

#[test]
fn program_while_loop_false_test() {
    assert_eq!(Datatype::Number(42), *run("\n        let x := 42\n        while x == 3 {\n           let x := x + 1\n        }\n        x"));
}

#[test]
fn program_parse_literal_test() {
    assert_eq!(Datatype::Number(32), *run("\n        32\n        "));
}

#[test]
fn program_parse_and_verify_array_test() {
    assert_eq!(
        Datatype::Array {
            value: vec![Rc::new(Datatype::Number(23)), Rc::new(Datatype::Number(43)), Rc::new(Datatype::Number(11))],
            type_: TypeInfo::Number,
        },
        *run("\n        [23, 43, 11]\n        ")
    );
}

#[test]
fn program_parse_struct_and_something_after_it() {
    assert_eq!(Datatype::Number(6), *run("\n        struct MyStruct {\n            a : Number\n        }\n        3 + 3\n\n        "));
}

#[test]
fn program_parse_struct_and_access_field() {
    assert_eq!(
        Datatype::Number(8),
        *run("\n        struct MyStruct {\n            a : Number\n        }\n        let instance := new MyStruct {\n            a: 8\n        }\n\n        instance.a\n\n        ")
    );
}

#[test]
fn program_parse_struct_and_access_field_via_assignment() {
    assert_eq!(
        Datatype::Number(8),
        *run("\n        struct MyStruct {\n            a : Number\n        }\n        let instance := new MyStruct {\n            a: 8\n        }\n\n        let value_from_struct := instance.a\n        value_from_struct\n\n        ")
    );
}

const TWO_FIELDS: &str = "\n        struct MyStruct {\n            a : Number\n            b : Number\n        }\n";

#[test]
fn program_parse_struct_with_multiple_fields_and_access_fields_in_function() {
    let input = format!(
        "{}        let instance := new MyStruct {{\n            a: 8\n            b: 10\n        }}\n\n        fn addContents( s: MyStruct ) -> Number {{\n            s.a + s.b\n        }}\n\n        addContents( instance )\n\n        ",
        TWO_FIELDS
    );
    assert_eq!(Datatype::Number(18), *run(&input));
}

fn struct_eight_three() -> Datatype {
    Datatype::Struct { map: vec![("a".to_string(), Datatype::Number(8)), ("b".to_string(), Datatype::Number(3))] }
}

#[test]
fn program_parse_struct_with_multiple_fields_and_return_struct_from_function_with_internal_assignment() {
    let input = format!(
        "{}\n        fn create_new_MyStruct( value: Number ) -> MyStruct {{\n            let c := new MyStruct {{\n                a: 8\n                b: value\n            }}\n            c\n        }}\n\n        create_new_MyStruct( 3 )\n        ",
        TWO_FIELDS
    );
    assert_eq!(struct_eight_three(), *run(&input));
}

#[test]
fn program_parse_struct_with_multiple_fields_and_return_struct_from_function() {
    let input = format!(
        "{}\n        fn create_new_MyStruct( value: Number ) -> MyStruct {{\n            new MyStruct {{\n                a: 8\n                b: value\n            }}\n        }}\n\n        create_new_MyStruct( 3 )\n        ",
        TWO_FIELDS
    );
    assert_eq!(struct_eight_three(), *run(&input));
}

#[test]
fn program_verify_that_struct_maps_dont_interfere_with_global_stack_map() {
    let input = format!(
        "{}\n        let a := 3\n        fn create_new_MyStruct( value: Number ) -> MyStruct {{\n            new MyStruct {{\n                a: 8\n                b: value\n            }}\n        }}\n\n        create_new_MyStruct( a )\n        ",
        TWO_FIELDS
    );
    assert_eq!(struct_eight_three(), *run(&input));
}

#[test]
fn program_verify_that_struct_maps_dont_interfere_with_function_maps() {
    let input = format!(
        "{}\n        let a := 3\n        fn create_new_MyStruct( a: Number ) -> MyStruct {{\n            new MyStruct {{\n                a: 8\n                b: a\n            }}\n        }}\n\n        create_new_MyStruct( a )\n        ",
        TWO_FIELDS
    );
    assert_eq!(struct_eight_three(), *run(&input));
}

#[test]
fn program_with_struct_functions_integration_test() {
    let input = format!(
        "{}\n        let a := 3\n        fn create_new_MyStruct( value: Number ) -> MyStruct {{\n            new MyStruct {{\n                a: 8\n                b: value\n            }}\n        }}\n\n        fn addContents( s: MyStruct ) -> Number {{\n            s.a + s.b\n        }}\n\n        let instance := create_new_MyStruct( a )\n        addContents( instance )\n        ",
        TWO_FIELDS
    );
    assert_eq!(Datatype::Number(11), *run(&input));
}

const CHECK_IF_THREE: &str = "\n        fn check_if_three( x: Number ) -> Number {\n            if x == 3 {\n                3\n            } else {\n                0\n            }\n        }\n\n        check_if_three( a )\n        ";

#[test]
fn program_with_a_conditional_in_a_function_integration_test() {
    let input = format!("\n        let a := 3{}", CHECK_IF_THREE);
    assert_eq!(Datatype::Number(3), *run(&input));
}

#[test]
fn program_with_a_conditional_in_a_function_2_integration_test() {
    let input = format!("\n        let a := 2{}", CHECK_IF_THREE);
    assert_eq!(Datatype::Number(0), *run(&input));
}

#[test]
fn for_loop_eval() {
    let mut map = Context::new();
    add_std_functions(&mut map);
    let ast = parse("\n        let b := 0\n        for i in [1,2,3] {\n           let b := b + i\n        }\n        b\n         ");
    assert_eq!(Datatype::Number(6), *ast.evaluate(&mut map).unwrap());
}

#[test]
fn for_loop_over_a_range_sums_it() {
    let ast = parse("\n        let c := 0\n        for a in [1..1001] {\n            let c := c + a\n        }\n        c\n        ");
    let mut map = Context::new();
    assert_eq!(Datatype::Number(500500), *ast.evaluate(&mut map).unwrap());
}

#[test]
fn range_then_index() {
    assert_eq!(Datatype::Number(1), *run("\n                let a := [1..1001]\n                a[0]\n                "));
}

#[test]
fn while_loop_counts_to_a_thousand() {
    assert_eq!(Datatype::Number(1000), *run("\n                let x := 0\n                while x < 1000 {\n                   let x := x + 1\n                }\n                x\n                "));
}

#[test]
fn assignment_parse_assignment_of_literal_test() {
    let input_string = "let b := 8";
    let value = match parse(input_string) {
        Ast::ExpressionList(mut items) if items.len() == 1 => items.remove(0),
        other => panic!("unexpected program: {:?}", other),
    };
    assert_eq!(
        Ast::SExpr(SExpression::VariableDeclaration {
            identifier: Box::new(Ast::ValueIdentifier("b".to_string())),
            ast: Box::new(Ast::Literal(Datatype::Number(8))),
        }),
        value
    )
}
