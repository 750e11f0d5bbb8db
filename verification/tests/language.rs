use hlwnpa::ast::{Ast, Datatype, LangError, TypeError, TypeInfo};
use hlwnpa::includes::included_files;
use hlwnpa::interpreter::{Context, Loaded};
use hlwnpa::mutability::{MutabilityError, MutabilityMap};
use hlwnpa::parser::program;
use hlwnpa::repl::{add_print_function, add_std_functions, create_repl, evaluate_line, type_checkable};
use hlwnpa::typecheck::TypeStore;
use hlwnpa::values::Comparison;
use std::rc::Rc;

fn parse(input: &str) -> Ast {
    match program(input) {
        Some((ast, _)) => ast,
        None => panic!("the program did not parse: {}", input),
    }
}

fn run_in(input: &str, ctx: &mut Context) -> Result<Rc<Datatype>, LangError> {
    parse(input).evaluate(ctx)
}

fn run(input: &str) -> Result<Rc<Datatype>, LangError> {
    let mut ctx = Context::new();
    run_in(input, &mut ctx)
}

fn number(input: &str) -> i32 {
    match run(input) {
        Ok(v) => match *v {
            Datatype::Number(n) => n,
            ref other => panic!("not a number: {:?}", other),
        },
        Err(e) => panic!("evaluation failed: {:?}", e),
    }
}

fn error(input: &str) -> LangError {
    match run(input) {
        Ok(v) => panic!("evaluation succeeded with {:?}", v),
        Err(e) => e,
    }
}

#[test]
fn reading_a_name_gives_the_value_last_assigned() {
    assert_eq!(7, number("let x := 5\nx := 7\nx"));
    assert_eq!(5, number("let x := 5\nx"));
}

#[test]
fn a_call_leaves_the_callers_variables_alone() {
    let mut ctx = Context::new();
    let program = "let a := 1\nfn f ( b : Number ) -> Number {\n let a := 10\n a + b\n}\nf(2)";
    assert_eq!(Datatype::Number(12), *run_in(program, &mut ctx).unwrap());
    assert_eq!(Datatype::Number(1), *run_in("a", &mut ctx).unwrap());
}

#[test]
fn division_and_remainder_by_zero_are_refused() {
    assert_eq!(LangError::DivideByZero, error("4 / 0"));
    assert_eq!(LangError::DivideByZero, error("4 % 0"));
    assert_eq!(2, number("9 / 4"));
    assert_eq!(1, number("9 % 4"));
    assert_eq!(-2, number("-9 / 4"));
    assert_eq!(-1, number("-9 % 4"));
}

#[test]
fn a_constant_cannot_be_assigned_again() {
    let ast = parse("const x := 4\nx := 5");
    let mut map: MutabilityMap = Vec::new();
    assert_eq!(Err(MutabilityError::CanNotAssignToConstVariable), ast.check_mutability_semantics(&mut map));
}

#[test]
fn the_type_checker_refuses_assigning_a_constant() {
    let ast = parse("const x := 4\nx := 5");
    let mut store: TypeStore = Vec::new();
    assert_eq!(Err(TypeError::CanNotAssignToConstVariable), ast.check_types(&mut store));
}

#[test]
fn hoisting_moves_structs_then_functions_to_the_front() {
    let ast = parse("let x := 1\nfn f ( a : Number ) -> Number { a }\nstruct S { a : Number }\nx");
    let hoisted = ast.hoist_functions_and_structs();
    match (&ast, &hoisted) {
        (Ast::ExpressionList(before), Ast::ExpressionList(after)) => {
            assert_eq!(before.len(), after.len());
            assert_eq!(before[2], after[0]);
            assert_eq!(before[1], after[1]);
            assert_eq!(before[0], after[2]);
            assert_eq!(before[3], after[3]);
        }
        _ => panic!("not lists"),
    }
}

#[test]
fn hoisting_lets_a_call_come_before_the_declaration() {
    let ast = parse("f(3)\nfn f ( a : Number ) -> Number { a + 1 }").hoist_functions_and_structs();
    let mut ctx = Context::new();
    assert!(ast.evaluate(&mut ctx).is_ok());
    assert_eq!(Datatype::Number(4), *run_in("f(3)", &mut ctx).unwrap());
}

#[test]
fn any_matches_every_type() {
    assert_eq!(Some(Comparison::Equal), TypeInfo::Any.compare_types(&TypeInfo::Number));
    assert_eq!(Some(Comparison::Equal), TypeInfo::Any.compare_types(&TypeInfo::String));
    assert_eq!(Some(Comparison::Equal), TypeInfo::Any.compare_types(&TypeInfo::Array(Box::new(TypeInfo::Bool))));
    assert_eq!(None, TypeInfo::Number.compare_types(&TypeInfo::String));
}

#[test]
fn reading_an_unknown_name_is_an_error() {
    assert_eq!(LangError::VariableDoesntExist("Variable `y` hasn't been assigned yet".to_string()), error("y"));
}

#[test]
fn a_condition_must_be_a_boolean() {
    assert_eq!(LangError::ConditionOnNonBoolean, error("if 3 { 4 }"));
}

#[test]
fn a_loop_condition_must_be_a_boolean() {
    assert_eq!(LangError::ConditionalNotBoolean(TypeInfo::Number), error("while 3 { 4 }"));
}

#[test]
fn invert_needs_a_boolean() {
    assert_eq!(LangError::InvertNonBoolean, error("!3"));
    assert_eq!(Datatype::Bool(false), *run("!true").unwrap());
}

#[test]
fn increment_and_decrement_need_numbers() {
    assert_eq!(LangError::IncrementNonNumber, error("true++"));
    assert_eq!(LangError::DecrementNonNumber, error("true--"));
    assert_eq!(4, number("3++"));
    assert_eq!(2, number("3--"));
}

#[test]
fn array_indexing_errors() {
    assert_eq!(LangError::OutOfBoundsArrayAccess, error("[1, 2, 3][3]"));
    assert_eq!(LangError::NegativeIndex(-1), error("let i := 0 - 1\n[1, 2, 3][i]"));
    assert_eq!(LangError::InvalidIndexType(Datatype::Bool(true)), error("[1, 2, 3][true]"));
    assert_eq!(LangError::ArrayAccessOnNonArry(TypeInfo::Number), error("let a := 3\na[0]"));
    assert_eq!(2, number("[1, 2, 3][1]"));
}

#[test]
fn calling_with_the_wrong_number_of_arguments_is_an_error() {
    assert_eq!(
        LangError::ParameterLengthMismatch,
        error("fn f ( a : Number ) -> Number { a }\nf(1, 2)")
    );
}

#[test]
fn a_function_must_return_its_declared_type() {
    assert_eq!(
        LangError::ReturnTypeDoesNotMatchReturnValue,
        error("fn f ( a : Number ) -> String { a }\nf(1)")
    );
}

#[test]
fn calling_a_number_is_an_error() {
    assert_eq!(LangError::ExecuteNonFunction, error("let f := 3\nf(1)"));
}

#[test]
fn adding_a_number_to_a_boolean_is_unsupported() {
    assert_eq!(LangError::UnsupportedArithimaticOperation, error("true + 1"));
}

#[test]
fn a_struct_field_is_read_back() {
    assert_eq!(8, number("struct S { a : Number }\nlet s := new S { a : 8 }\ns.a"));
}

#[test]
fn a_missing_struct_field_is_an_error() {
    assert_eq!(
        LangError::StructFieldDoesntExist,
        error("struct S { a : Number }\nlet s := new S { a : 8 }\ns.b")
    );
}

#[test]
fn ranges_count_up_from_the_start() {
    assert_eq!(45, number("let c := 0\nfor a in [0..10] {\n let c := c + a\n}\nc"));
}

#[test]
fn print_records_the_value() {
    let mut ctx = Context::new();
    add_std_functions(&mut ctx);
    let result = run_in("print(\"hi\")", &mut ctx).unwrap();
    assert_eq!(Datatype::String("hi".to_string()), *result);
    assert_eq!(1, ctx.output.len());
    assert_eq!(None, ctx.output[0].0);
    assert_eq!(Datatype::String("hi".to_string()), *ctx.output[0].1);
}

#[test]
fn println_prints_with_a_newline() {
    let mut ctx = Context::new();
    add_std_functions(&mut ctx);
    run_in("println(\"hi\")", &mut ctx).unwrap();
    assert_eq!(1, ctx.output.len());
    assert_eq!(Datatype::String("hi\n".to_string()), *ctx.output[0].1);
}

#[test]
fn expect_print_function_to_be_added_to_global_map() {
    let mut ctx = Context::new();
    add_print_function(&mut ctx);
    assert!(ctx.variables.iter().any(|(name, value)| name == "print" && matches!(**value, Datatype::Function { .. })));
}

#[test]
fn an_included_program_runs_in_the_current_variables() {
    let mut ctx = Context::new();
    ctx.includes.push(("lib.hlw".to_string(), Loaded::Program(parse("let shared := 41"))));
    assert_eq!(Datatype::Number(42), *run_in("include \"lib.hlw\"\nshared + 1", &mut ctx).unwrap());
}

#[test]
fn an_unloaded_include_cannot_be_read() {
    let mut ctx = Context::new();
    match run_in("include \"missing.hlw\"", &mut ctx) {
        Err(LangError::CouldNotReadFile { filename, .. }) => assert_eq!("missing.hlw", filename),
        other => panic!("unexpected: {:?}", other),
    }
}

#[test]
fn included_files_lists_literal_names_in_order() {
    let ast = parse("include \"a.hlw\"\nfn f ( x : Number ) -> Number {\n include \"b.hlw\"\n x\n}\nif true { include \"c.hlw\" }");
    assert_eq!(vec!["a.hlw".to_string(), "b.hlw".to_string(), "c.hlw".to_string()], included_files(&ast));
}

#[test]
fn main_is_found_and_called() {
    let ast = parse("fn main ( ) -> Number { 7 }").hoist_functions_and_structs();
    assert!(ast.main_fn_exists());
    let mut ctx = Context::new();
    ast.evaluate(&mut ctx).unwrap();
    assert_eq!(Datatype::Number(7), *ast.execute_main(&mut ctx).unwrap());
    assert!(!parse("fn other ( ) -> Number { 7 }").main_fn_exists());
}

#[test]
fn the_prompt_keeps_constants_across_lines() {
    let mut state = create_repl();
    let first = parse("const x := 3");
    assert!(type_checkable(&first, &state.types));
    let (result, rule) = evaluate_line(&first, &mut state);
    assert_eq!(Datatype::Number(3), *result.unwrap());
    assert_eq!(None, rule);
    let second = parse("x := 4");
    let (result, rule) = evaluate_line(&second, &mut state);
    assert_eq!(Err(LangError::MutabilityRulesViolated), result);
    assert_eq!(Some(MutabilityError::CanNotAssignToConstVariable), rule);
    let third = parse("x + 1");
    let (result, _) = evaluate_line(&third, &mut state);
    assert_eq!(Datatype::Number(4), *result.unwrap());
}

#[test]
fn the_prompt_lets_a_let_variable_be_assigned_again() {
    let mut state = create_repl();
    evaluate_line(&parse("let x := 3"), &mut state).0.unwrap();
    let (result, rule) = evaluate_line(&parse("x := 4"), &mut state);
    assert_eq!(None, rule);
    assert_eq!(Datatype::Number(4), *result.unwrap());
    let (result, rule) = evaluate_line(&parse("let x := 5"), &mut state);
    assert_eq!(None, rule);
    assert_eq!(Datatype::Number(5), *result.unwrap());
}

#[test]
fn a_let_variable_may_be_assigned_again() {
    let ast = parse("let a := 5\na := 6");
    let mut map: MutabilityMap = Vec::new();
    assert_eq!(Ok(()), ast.check_mutability_semantics(&mut map));
    let single = parse("let a := 5");
    let single = match &single {
        Ast::ExpressionList(items) => &items[0],
        other => other,
    };
    let mut map: MutabilityMap = Vec::new();
    assert_eq!(Ok(()), single.check_mutability_semantics(&mut map));
    assert_eq!(vec![("a".to_string(), hlwnpa::mutability::Mutability::Mutable)], map);
}

#[test]
fn logical_operators_read_both_operands_once() {
    assert_eq!(Datatype::Bool(false), *run("false && true").unwrap());
    assert_eq!(Datatype::Bool(true), *run("true || false").unwrap());
    assert_eq!(Datatype::Bool(true), *run("true && true").unwrap());
    assert_eq!(Datatype::Bool(false), *run("false || false").unwrap());
    assert_eq!(LangError::TypeError { expected: TypeInfo::Bool, found: TypeInfo::Number }, error("3 && true"));
    assert_eq!(LangError::TypeError { expected: TypeInfo::Bool, found: TypeInfo::Number }, error("true || 3"));
}

#[test]
fn the_prompt_reports_type_errors() {
    let mut state = create_repl();
    let line = parse("true + 1");
    assert!(type_checkable(&line, &state.types));
    let (result, rule) = evaluate_line(&line, &mut state);
    assert_eq!(None, rule);
    assert_eq!(
        Err(LangError::NewTypeError(TypeError::UnsupportedOperation(TypeInfo::Bool, TypeInfo::Number))),
        result
    );
}

fn uuid_shaped(s: &str) -> bool {
    let chars: Vec<char> = s.chars().collect();
    chars.len() == 36
        && chars.iter().enumerate().all(|(i, c)| {
            if i == 8 || i == 13 || i == 18 || i == 23 {
                *c == '-'
            } else {
                c.is_ascii_digit() || ('a'..='f').contains(c)
            }
        })
}

#[test]
fn random_identifiers_are_fresh_uuids() {
    let a: String = hlwnpa::for_loop::random_identifier_chars().into_iter().collect();
    let b: String = hlwnpa::for_loop::random_identifier_chars().into_iter().collect();
    assert!(uuid_shaped(&a), "{}", a);
    assert!(uuid_shaped(&b), "{}", b);
    assert_ne!(a, b);
}

#[test]
fn a_for_loop_hides_its_index_under_a_uuid() {
    let body = parse("let c := c + a");
    let array = parse("[1, 2, 3]");
    let array = match array {
        Ast::ExpressionList(mut items) => items.remove(0),
        other => other,
    };
    let r = hlwnpa::for_loop::create_for_loop(Ast::ValueIdentifier("a".to_string()), array, body);
    match &r {
        Ast::ExpressionList(items) => {
            assert_eq!(4, items.len());
            match &items[0] {
                Ast::SExpr(hlwnpa::ast::SExpression::Assignment { identifier, .. }) => match &**identifier {
                    Ast::ValueIdentifier(name) => assert!(uuid_shaped(name), "{}", name),
                    other => panic!("unexpected: {:?}", other),
                },
                other => panic!("unexpected: {:?}", other),
            }
        }
        other => panic!("unexpected: {:?}", other),
    }
    let mut ctx = Context::new();
    run_in("let c := 0", &mut ctx).unwrap();
    r.evaluate(&mut ctx).unwrap();
    assert_eq!(Datatype::Number(6), *run_in("c", &mut ctx).unwrap());
}

#[test]
fn for_loop_with_names_uses_the_given_names() {
    let r = hlwnpa::for_loop::for_loop_with_names(
        Ast::ValueIdentifier("a".to_string()),
        Ast::ValueIdentifier("arr".to_string()),
        Ast::ExpressionList(vec![]),
        &"i".to_string(),
        &"n".to_string(),
        &"unused".to_string(),
    );
    match &r {
        Ast::ExpressionList(items) => assert_eq!(3, items.len()),
        other => panic!("unexpected: {:?}", other),
    }
    let mut ctx = Context::new();
    run_in("let arr := [5, 6]", &mut ctx).unwrap();
    r.evaluate(&mut ctx).unwrap();
    assert_eq!(Datatype::Number(2), *run_in("i", &mut ctx).unwrap());
    assert_eq!(Datatype::Number(2), *run_in("n", &mut ctx).unwrap());
    assert_eq!(Datatype::Number(6), *run_in("a", &mut ctx).unwrap());
}

#[test]
fn struct_fields_do_not_depend_on_the_order_written() {
    let declare = "struct S {\n a : Number\n b : Number\n}\n";
    let one = run(&format!("{}new S {{\n a : 1\n b : 2\n}}", declare)).unwrap();
    let other = run(&format!("{}new S {{\n b : 2\n a : 1\n}}", declare)).unwrap();
    assert_eq!(one, other);
    match &*one {
        Datatype::Struct { map } => {
            assert_eq!(2, map.len());
            assert_eq!("a", map[0].0);
            assert_eq!("b", map[1].0);
        }
        other => panic!("not a struct: {:?}", other),
    }
}

#[test]
fn precedence_follows_the_documented_classes() {
    assert_eq!(10, number("3 * 3 + 1"));
    assert_eq!(25, number("1 + 2 * 3 * 4"));
    assert_eq!(17, number("1 * 2 + 3 * 5"));
    assert_eq!(Datatype::Bool(true), *run("1 + 1 == 2 && 2 * 2 > 3").unwrap());
    assert_eq!(3, number("8 - 3 - 2"));
    assert_eq!(4, number("8 / 4 * 2"));
    assert_eq!(Datatype::Bool(true), *run("1 + 2 < 2 * 2").unwrap());
    assert_eq!(Datatype::Bool(true), *run("true == 10 > 3").unwrap());
}

#[test]
fn readme_program_one() {
    let program = "let x := 5\nfn add_2_to_number( number: Number) -> Number {\n   number + 2 \n}\nadd_2_to_number(x)\n";
    assert_eq!(7, number(program));
}

#[test]
fn readme_program_two() {
    let program = "struct MyStruct {\n    a : Number\n    b : Number\n}\n\nlet a := 3\n\nfn create_new_MyStruct( value: Number ) -> MyStruct {\n    new MyStruct {\n        a: 8\n        b: value\n    }\n}\n\nfn addContents( s: MyStruct ) -> Number {\n    s.a + s.b\n}\n\nlet instance := create_new_MyStruct( a )\n\naddContents( instance )\n";
    assert_eq!(11, number(program));
}

#[test]
fn variables_stay_in_ascending_order_of_names() {
    let mut ctx = Context::new();
    add_std_functions(&mut ctx);
    run_in("let zeta := 1\nlet alpha := 2\nlet mid := 3\nalpha := 4\nfn beta ( x : Number ) -> Number { x }", &mut ctx).unwrap();
    let names: Vec<&str> = ctx.variables.iter().map(|(n, _)| n.as_str()).collect();
    assert_eq!(vec!["alpha", "beta", "mid", "print", "println", "zeta"], names);
}

#[test]
fn program_parse_struct_with_multiple_fields_and_access_fields_in_expression() {
    // `*` binds tighter than `+`, as the documented precedence classes say,
    // so the expression is 8 + (10 * 10).
    let input = "\n        struct MyStruct {\n            a : Number\n            b : Number\n        }\n        let instance := new MyStruct {\n            a: 8\n            b: 10\n        }\n\n        instance.a + instance.b * instance.b\n\n        ";
    assert_eq!(108, number(input));
}

#[test]
fn datatype_equality_tests() {
    use_equal(Datatype::Number(30), Datatype::Number(30), true);
    use_equal(Datatype::Number(23), Datatype::Number(30), false);
    use_equal(Datatype::String("Hello".to_string()), Datatype::String("Hello".to_string()), true);
    use_equal(Datatype::Bool(true), Datatype::Bool(true), true);
    use_equal(Datatype::Bool(false), Datatype::Bool(true), false);
    use_equal(
        Datatype::Array { value: vec![], type_: TypeInfo::Number },
        Datatype::Array { value: vec![], type_: TypeInfo::Number },
        true,
    );
    use_equal(
        Datatype::Array { value: vec![Rc::new(Datatype::Bool(true))], type_: TypeInfo::Bool },
        Datatype::Array { value: vec![Rc::new(Datatype::Bool(true))], type_: TypeInfo::Bool },
        true,
    );
    use_equal(
        Datatype::Array { value: vec![Rc::new(Datatype::Bool(true))], type_: TypeInfo::Bool },
        Datatype::Array {
            value: vec![Rc::new(Datatype::Bool(true)), Rc::new(Datatype::Bool(true))],
            type_: TypeInfo::Number,
        },
        false,
    );
    use_equal(Datatype::Struct { map: vec![] }, Datatype::Struct { map: vec![] }, true);
    let field = || vec![("field".to_string(), Datatype::Bool(true))];
    use_equal(Datatype::Struct { map: field() }, Datatype::Struct { map: vec![] }, false);
    let map = field();
    let other_map = vec![("field".to_string(), Datatype::Bool(true))];
    use_equal(Datatype::Struct { map }, Datatype::Struct { map: other_map }, true);
}

fn use_equal(a: Datatype, b: Datatype, expected: bool) {
    assert_eq!(expected, a == b);
    assert_eq!(expected, hlwnpa::equality::datatype_eq(&a, &b));
}

#[test]
fn display_text_of_simple_values() {
    assert_eq!(Some("-42".to_string()), Datatype::Number(-42).display_text());
    assert_eq!(Some("hi".to_string()), Datatype::String("hi".to_string()).display_text());
    assert_eq!(Some("true".to_string()), Datatype::Bool(true).display_text());
    assert_eq!(Some("false".to_string()), Datatype::Bool(false).display_text());
    assert_eq!(Some("NONE".to_string()), Datatype::Nothing.display_text());
    assert_eq!(None, Datatype::Array { value: vec![], type_: TypeInfo::Number }.display_text());
}

#[test]
fn reading_an_empty_line_gives_nothing() {
    assert_eq!(Some(Ast::Literal(Datatype::Nothing)), hlwnpa::repl::read(""));
    assert_eq!(Some(Ast::ExpressionList(vec![Ast::Literal(Datatype::Number(3))])), hlwnpa::repl::read("3"));
    assert_eq!(None, hlwnpa::repl::read("+"));
}

#[test]
fn indexing_an_array_by_position() {
    assert_eq!(12, number("[12, 14, 16][0]"));
    assert_eq!(LangError::OutOfBoundsArrayAccess, error("[12, 14, 16][3]"));
}

#[test]
fn an_assignment_keeps_other_names() {
    let mut ctx = Context::new();
    run_in("let a := 1\nlet b := 2\nb := a + 5", &mut ctx).unwrap();
    assert_eq!(Datatype::Number(1), *run_in("a", &mut ctx).unwrap());
    assert_eq!(Datatype::Number(6), *run_in("b", &mut ctx).unwrap());
}

#[test]
fn a_list_gives_its_last_value_and_stops_at_an_error() {
    assert_eq!(3, number("1\n2\n3"));
    let mut ctx = Context::new();
    add_std_functions(&mut ctx);
    assert_eq!(LangError::DivideByZero, run_in("1 / 0\nprint(\"after\")", &mut ctx).unwrap_err());
    assert_eq!(0, ctx.output.len());
}

#[test]
fn a_mismatched_argument_count_does_not_run_the_body() {
    let mut ctx = Context::new();
    add_std_functions(&mut ctx);
    let result = run_in("fn f ( a : Number ) -> Number {\n print(\"body\")\n a\n}\nf(1, 2)", &mut ctx);
    assert_eq!(LangError::ParameterLengthMismatch, result.unwrap_err());
    assert_eq!(0, ctx.output.len());
}

#[test]
fn the_first_mistyped_argument_is_reported() {
    assert_eq!(
        LangError::TypeError { expected: TypeInfo::String, found: TypeInfo::Bool },
        error("fn f ( a : Number, b : String, c : Number ) -> Number { a }\nf(1, true, \"x\")")
    );
}

#[test]
fn comparisons_of_values() {
    assert_eq!(Datatype::Bool(true), *run("4 > 3").unwrap());
    assert_eq!(Datatype::Bool(true), *run("2 < 3").unwrap());
    assert_eq!(Datatype::Bool(true), *run("5 >= 5").unwrap());
    assert_eq!(Datatype::Bool(true), *run("5 <= 5").unwrap());
    assert_eq!(Datatype::Bool(true), *run("\"abc\" < \"abd\"").unwrap());
    assert_eq!(Datatype::Bool(true), *run("false < true").unwrap());
    assert_eq!(Datatype::Bool(false), *run("[1, 2] > [1, 2]").unwrap());
    assert_eq!(Datatype::Bool(true), *run("[1, 2] >= [1, 2]").unwrap());
    assert_eq!(Datatype::Bool(true), *run("[1, 2] < [1, 3]").unwrap());
}
