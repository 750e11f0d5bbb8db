use vstd::prelude::*;
use crate::ast::{Ast, Datatype, TypeInfo};
use crate::model::{AstV, DatatypeV, TypeV, SKind, view_asts, view_dt, view_dts};
use crate::expressions::{view_pair, view_pairs};
use vstd::string::StrSliceExecFns;
use crate::operator::Operator;
use crate::expressions::grouped;
use crate::value_types::type_of;
use crate::for_loop::for_loop_expression;
use crate::text::nat_to_decimal;

verus! {

// The grammar of programs, read by recursive descent over the characters of
// the source. Every reader takes the text, the position to start at and a
// budget of nested calls; it gives what it read and the position after it,
// or nothing. Whitespace may precede every token. Where several forms are
// possible they are tried in a fixed order and the first that reads wins.

/// What a reader of expressions gives: the expression and where it ends.
pub type Parsed = Option<(AstV, int)>;

pub open spec fn is_space(c: char) -> bool {
    c == ' ' || c == '\t' || c == '\r' || c == '\n'
}

/// The first position at or after `i` that holds no whitespace.
pub open spec fn skip_ws(s: Seq<char>, i: int) -> int
    decreases s.len() - i,
{
    if 0 <= i < s.len() && is_space(s[i]) {
        skip_ws(s, i + 1)
    } else {
        i
    }
}

/// Whether the text `t` stands at position `i`.
pub open spec fn at_text(s: Seq<char>, i: int, t: Seq<char>) -> bool {
    0 <= i && i + t.len() <= s.len() && s.subrange(i, i + t.len()) == t
}

/// The token `t`, after optional whitespace: the position after it.
pub open spec fn token(s: Seq<char>, i: int, t: Seq<char>) -> Option<int> {
    let j = skip_ws(s, i);
    if at_text(s, j, t) {
        Some(j + t.len())
    } else {
        None
    }
}

/// The characters a name may hold.
pub open spec fn is_ident_char(c: char) -> bool {
    !(is_space(c) || c == '.' || c == '(' || c == ')' || c == '{' || c == '}' || c == '<' || c == '>'
        || c == '[' || c == ']' || c == ',' || c == ':' || c == ';' || c == '+' || c == '-' || c == '*'
        || c == '/' || c == '%' || c == '!' || c == '=' || c == '"' || c == '&' || c == '|')
}

/// The end of the run of name characters that starts at `i`.
pub open spec fn ident_end(s: Seq<char>, i: int) -> int
    decreases s.len() - i,
{
    if 0 <= i < s.len() && is_ident_char(s[i]) {
        ident_end(s, i + 1)
    } else {
        i
    }
}

/// The words that cannot start a name when whitespace follows them.
pub open spec fn reserved_words() -> Seq<Seq<char>> {
    seq![
        "let"@, "const"@, "fn"@, "if"@, "else"@, "for"@, "while"@, "true"@, "false"@, "struct"@, "new"@,
        "include"@,
    ]
}

/// Whether a reserved word followed by whitespace stands at `j`.
pub open spec fn reserved_at(s: Seq<char>, j: int) -> bool {
    exists|w: int|
        0 <= w < reserved_words().len() && #[trigger] at_text(s, j, reserved_words()[w]) && j
            + reserved_words()[w].len() < s.len() && is_space(s[j + reserved_words()[w].len()])
}

/// A name, after optional whitespace.
pub open spec fn identifier(s: Seq<char>, i: int) -> Option<(Seq<char>, int)> {
    let j = skip_ws(s, i);
    let k = ident_end(s, j);
    if reserved_at(s, j) || k == j {
        None
    } else {
        Some((s.subrange(j, k), k))
    }
}

pub open spec fn is_digit(c: char) -> bool {
    '0' <= c && c <= '9'
}

/// The end of the run of digits that starts at `i`.
pub open spec fn digits_end(s: Seq<char>, i: int) -> int
    decreases s.len() - i,
{
    if 0 <= i < s.len() && is_digit(s[i]) {
        digits_end(s, i + 1)
    } else {
        i
    }
}

/// The value of a run of decimal digits.
pub open spec fn digits_value(d: Seq<char>) -> int
    decreases d.len(),
{
    if d.len() == 0 {
        0
    } else {
        digits_value(d.drop_last()) * 10 + (d.last() as int - '0' as int)
    }
}

/// A number: digits whose value fits an `i32`.
pub open spec fn number(s: Seq<char>, i: int) -> Option<(i32, int)> {
    let j = skip_ws(s, i);
    let k = digits_end(s, j);
    let v = digits_value(s.subrange(j, k));
    if k == j || v > i32::MAX {
        None
    } else {
        Some((v as i32, k))
    }
}

/// The first `"` at or after `i`, or the end of the text.
pub open spec fn quote_end(s: Seq<char>, i: int) -> int
    decreases s.len() - i,
{
    if 0 <= i < s.len() && s[i] != '"' {
        quote_end(s, i + 1)
    } else {
        i
    }
}

/// A string: the characters between two quotes.
pub open spec fn string_literal(s: Seq<char>, i: int) -> Option<(Seq<char>, int)> {
    let j = skip_ws(s, i);
    if 0 <= j < s.len() && s[j] == '"' {
        let k = quote_end(s, j + 1);
        if k < s.len() {
            Some((s.subrange(j + 1, k), k + 1))
        } else {
            None
        }
    } else {
        None
    }
}

/// A number, a string, `true` or `false`.
pub open spec fn simple_literal(s: Seq<char>, i: int) -> Option<(DatatypeV, int)> {
    match number(s, i) {
        Some((n, j)) => Some((DatatypeV::Number(n), j)),
        None => match string_literal(s, i) {
            Some((t, j)) => Some((DatatypeV::String(t), j)),
            None => match token(s, i, "true"@) {
                Some(j) => Some((DatatypeV::Bool(true), j)),
                None => match token(s, i, "false"@) {
                    Some(j) => Some((DatatypeV::Bool(false), j)),
                    None => None,
                },
            },
        },
    }
}

/// The elements of an array after its first: `, literal` as long as they come.
pub open spec fn more_elements(s: Seq<char>, i: int, f: nat) -> (Seq<DatatypeV>, int)
    decreases f,
{
    if f == 0 {
        (Seq::empty(), i)
    } else {
        match token(s, i, ","@) {
            Some(j) => match simple_literal(s, j) {
                Some((v, k)) => {
                    let (rest, e) = more_elements(s, k, (f - 1) as nat);
                    (seq![v] + rest, e)
                }
                None => (Seq::empty(), i),
            },
            None => (Seq::empty(), i),
        }
    }
}

/// The type an array literal declares: that of its first element.
pub open spec fn element_type(vs: Seq<DatatypeV>) -> TypeV {
    if vs.len() == 0 {
        TypeV::Any
    } else {
        type_of(vs[0])
    }
}

/// `[a, b, ...]` of simple literals.
pub open spec fn array_literal(s: Seq<char>, i: int, f: nat) -> Option<(DatatypeV, int)> {
    match token(s, i, "["@) {
        None => None,
        Some(j) => {
            let (vs, k) = match simple_literal(s, j) {
                Some((v, m)) => {
                    let (rest, e) = more_elements(s, m, f);
                    (seq![v] + rest, e)
                }
                None => (Seq::empty(), j),
            };
            match token(s, k, "]"@) {
                Some(e) => Some((DatatypeV::Array(vs, element_type(vs)), e)),
                None => None,
            }
        }
    }
}

/// `[start..end]`.
pub open spec fn array_range(s: Seq<char>, i: int) -> Parsed {
    match token(s, i, "["@) {
        None => None,
        Some(j) => match number(s, j) {
            None => None,
            Some((a, k)) => match token(s, k, ".."@) {
                None => None,
                Some(l) => match number(s, l) {
                    None => None,
                    Some((b, m)) => match token(s, m, "]"@) {
                        None => None,
                        Some(e) => Some((
                            AstV::Op(
                                SKind::Range,
                                seq![AstV::Literal(DatatypeV::Number(a)), AstV::Literal(DatatypeV::Number(b))],
                            ),
                            e,
                        )),
                    },
                },
            },
        },
    }
}

/// A literal: an array, a range, a number, a string or a truth value.
pub open spec fn literal(s: Seq<char>, i: int, f: nat) -> Parsed {
    match array_literal(s, i, f) {
        Some((d, j)) => Some((AstV::Literal(d), j)),
        None => match array_range(s, i) {
            Some(r) => Some(r),
            None => match simple_literal(s, i) {
                Some((d, j)) => Some((AstV::Literal(d), j)),
                None => None,
            },
        },
    }
}

/// A type: `Number`, `String`, `Bool`, `[type]`, or a struct's name.
pub open spec fn type_signature(s: Seq<char>, i: int, f: nat) -> Option<(TypeV, int)>
    decreases f, 0nat,
{
    if f == 0 {
        None
    } else {
        match token(s, i, "Number"@) {
            Some(j) => Some((TypeV::Number, j)),
            None => match token(s, i, "String"@) {
                Some(j) => Some((TypeV::String, j)),
                None => match token(s, i, "Bool"@) {
                    Some(j) => Some((TypeV::Bool, j)),
                    None => match array_type(s, i, (f - 1) as nat) {
                        Some(r) => Some(r),
                        None => match identifier(s, i) {
                            Some((id, j)) => Some((TypeV::StructType(id), j)),
                            None => None,
                        },
                    },
                },
            },
        }
    }
}

/// `[type]`.
pub open spec fn array_type(s: Seq<char>, i: int, f: nat) -> Option<(TypeV, int)>
    decreases f, 1nat,
{
    match token(s, i, "["@) {
        None => None,
        Some(j) => match type_signature(s, j, f) {
            None => None,
            Some((t, k)) => match token(s, k, "]"@) {
                Some(e) => Some((TypeV::Array(Box::new(t)), e)),
                None => None,
            },
        },
    }
}

/// The binary operators, in the order they are tried.
pub open spec fn binary_operators() -> Seq<(Seq<char>, Operator)> {
    seq![
        ("*"@, Operator::Times),
        ("/"@, Operator::Divide),
        ("%"@, Operator::Modulo),
        ("+"@, Operator::Plus),
        ("-"@, Operator::Minus),
        (">="@, Operator::GreaterThanOrEqual),
        ("<="@, Operator::LessThanOrEqual),
        (">"@, Operator::GreaterThan),
        ("<"@, Operator::LessThan),
        ("=="@, Operator::Equals),
        ("!="@, Operator::NotEquals),
        ("&&"@, Operator::LogicalAnd),
        ("||"@, Operator::LogicalOr),
        (":="@, Operator::Assignment),
    ]
}

/// The first of `ops`, from the `k`-th on, that stands at `i`.
pub open spec fn first_operator(s: Seq<char>, i: int, ops: Seq<(Seq<char>, Operator)>, k: int) -> Option<(Operator, int)>
    decreases ops.len() - k,
{
    if k < 0 || k >= ops.len() {
        None
    } else {
        match token(s, i, ops[k].0) {
            Some(j) => Some((ops[k].1, j)),
            None => first_operator(s, i, ops, k + 1),
        }
    }
}

/// `++` or `--` after an operand.
pub open spec fn postfix_operator(s: Seq<char>, i: int) -> Option<(Operator, int)> {
    match token(s, i, "++"@) {
        Some(j) => Some((Operator::Increment, j)),
        None => match token(s, i, "--"@) {
            Some(j) => Some((Operator::Decrement, j)),
            None => None,
        },
    }
}

/// An operand: a literal, a name, a struct creation, an expression in
/// parentheses, or a negated or inverted operand.
pub open spec fn token_group(s: Seq<char>, i: int, f: nat) -> Parsed
    decreases f, 0nat,
{
    if f == 0 {
        None
    } else {
        let g = (f - 1) as nat;
        match literal(s, i, g) {
            Some(r) => Some(r),
            None => match identifier(s, i) {
                Some((id, j)) => Some((AstV::ValueIdentifier(id), j)),
                None => match create_struct_instance(s, i, g) {
                    Some(r) => Some(r),
                    None => match parenthesized(s, i, g) {
                        Some(r) => Some(r),
                        None => unary_operand(s, i, g),
                    },
                },
            },
        }
    }
}

/// `( expression )`.
pub open spec fn parenthesized(s: Seq<char>, i: int, f: nat) -> Parsed
    decreases f, 1nat,
{
    match token(s, i, "("@) {
        None => None,
        Some(j) => match sexpr(s, j, f) {
            None => None,
            Some((e, k)) => match token(s, k, ")"@) {
                Some(m) => Some((e, m)),
                None => None,
            },
        },
    }
}

/// `-operand` or `!operand`.
pub open spec fn unary_operand(s: Seq<char>, i: int, f: nat) -> Parsed
    decreases f, 1nat,
{
    let (k, j) = match token(s, i, "-"@) {
        Some(j) => (Some(SKind::Negate), j),
        None => match token(s, i, "!"@) {
            Some(j) => (Some(SKind::Invert), j),
            None => (None, i),
        },
    };
    match k {
        None => None,
        Some(k) => match token_group(s, j, f) {
            Some((g, m)) => Some((AstV::Op(k, seq![g]), m)),
            None => None,
        },
    }
}

/// What may follow an operand: an operator with its right operand, `++` or
/// `--`, an index in brackets, `.field`, or call arguments in parentheses.
pub open spec fn postfix_item(s: Seq<char>, i: int, f: nat) -> Option<((Operator, Option<AstV>), int)>
    decreases f, 3nat,
{
    let binary = match first_operator(s, i, binary_operators(), 0) {
        Some((op, j)) => match token_group(s, j, f) {
            Some((r, k)) => Some(((op, Some(r)), k)),
            None => None,
        },
        None => None,
    };
    match binary {
        Some(r) => Some(r),
        None => match postfix_operator(s, i) {
            Some((op, j)) => Some(((op, None), j)),
            None => match token(s, i, "["@) {
                Some(j) => match sexpr(s, j, f) {
                    Some((e, k)) => match token(s, k, "]"@) {
                        Some(m) => Some(((Operator::ArrayAccess, Some(e)), m)),
                        None => field_or_call(s, i, f),
                    },
                    None => field_or_call(s, i, f),
                },
                None => field_or_call(s, i, f),
            },
        },
    }
}

/// `.field` or `( arguments )`.
pub open spec fn field_or_call(s: Seq<char>, i: int, f: nat) -> Option<((Operator, Option<AstV>), int)>
    decreases f, 2nat,
{
    match token(s, i, "."@) {
        Some(j) => match identifier(s, j) {
            Some((id, k)) => Some(((Operator::StructAccess, Some(AstV::ValueIdentifier(id))), k)),
            None => call_arguments(s, i, f),
        },
        None => call_arguments(s, i, f),
    }
}

/// `( expression, ... )` as the arguments of a call.
pub open spec fn call_arguments(s: Seq<char>, i: int, f: nat) -> Option<((Operator, Option<AstV>), int)>
    decreases f, 1nat,
{
    match token(s, i, "("@) {
        None => None,
        Some(j) => {
            let (args, k) = expression_list(s, j, f);
            match token(s, k, ")"@) {
                Some(m) => Some(((Operator::ExecuteFunction, Some(AstV::ExpressionList(args))), m)),
                None => None,
            }
        }
    }
}

/// Expressions separated by commas, possibly none.
pub open spec fn expression_list(s: Seq<char>, i: int, f: nat) -> (Seq<AstV>, int)
    decreases f, 0nat,
{
    if f == 0 {
        (Seq::empty(), i)
    } else {
        match sexpr(s, i, (f - 1) as nat) {
            None => (Seq::empty(), i),
            Some((e, j)) => {
                let (rest, k) = more_expressions(s, j, (f - 1) as nat);
                (seq![e] + rest, k)
            }
        }
    }
}

/// `, expression` as long as they come.
pub open spec fn more_expressions(s: Seq<char>, i: int, f: nat) -> (Seq<AstV>, int)
    decreases f, 0nat,
{
    if f == 0 {
        (Seq::empty(), i)
    } else {
        match token(s, i, ","@) {
            None => (Seq::empty(), i),
            Some(j) => match sexpr(s, j, (f - 1) as nat) {
                None => (Seq::empty(), i),
                Some((e, k)) => {
                    let (rest, m) = more_expressions(s, k, (f - 1) as nat);
                    (seq![e] + rest, m)
                }
            },
        }
    }
}

/// The run of postfix items after an operand.
pub open spec fn postfix_items(s: Seq<char>, i: int, f: nat) -> (Seq<(Operator, Option<AstV>)>, int)
    decreases f, 0nat,
{
    if f == 0 {
        (Seq::empty(), i)
    } else {
        match postfix_item(s, i, (f - 1) as nat) {
            None => (Seq::empty(), i),
            Some((item, j)) => {
                let (rest, k) = postfix_items(s, j, (f - 1) as nat);
                (seq![item] + rest, k)
            }
        }
    }
}

/// An expression: an operand with the operators that follow it, grouped by
/// precedence; or, failing that, a negated or inverted operand.
pub open spec fn sexpr(s: Seq<char>, i: int, f: nat) -> Parsed
    decreases f, 0nat,
{
    if f == 0 {
        None
    } else {
        let g = (f - 1) as nat;
        match token_group(s, i, g) {
            Some((first, j)) => {
                let (items, k) = postfix_items(s, j, g);
                match grouped(first, items) {
                    Some(e) => Some((e, k)),
                    None => unary_operand(s, i, g),
                }
            }
            None => unary_operand(s, i, g),
        }
    }
}

/// `name : type`.
pub open spec fn type_assignment(s: Seq<char>, i: int, f: nat) -> Parsed {
    match identifier(s, i) {
        None => None,
        Some((id, j)) => match token(s, j, ":"@) {
            None => None,
            Some(k) => match type_signature(s, k, f) {
                None => None,
                Some((t, m)) => Some((AstV::Op(SKind::TypeAssignment, seq![AstV::ValueIdentifier(id), AstV::Type(t)]), m)),
            },
        },
    }
}

/// `name : type` entries, one after another.
pub open spec fn type_assignments(s: Seq<char>, i: int, f: nat) -> (Seq<AstV>, int)
    decreases f,
{
    if f == 0 {
        (Seq::empty(), i)
    } else {
        match type_assignment(s, i, f) {
            None => (Seq::empty(), i),
            Some((a, j)) => {
                let (rest, k) = type_assignments(s, j, (f - 1) as nat);
                (seq![a] + rest, k)
            }
        }
    }
}

/// `name : type` entries separated by commas, possibly none.
pub open spec fn parameter_list(s: Seq<char>, i: int, f: nat) -> (Seq<AstV>, int) {
    match type_assignment(s, i, f) {
        None => (Seq::empty(), i),
        Some((a, j)) => {
            let (rest, k) = more_parameters(s, j, f);
            (seq![a] + rest, k)
        }
    }
}

/// `, name : type` as long as they come.
pub open spec fn more_parameters(s: Seq<char>, i: int, f: nat) -> (Seq<AstV>, int)
    decreases f,
{
    if f == 0 {
        (Seq::empty(), i)
    } else {
        match token(s, i, ","@) {
            None => (Seq::empty(), i),
            Some(j) => match type_assignment(s, j, f) {
                None => (Seq::empty(), i),
                Some((a, k)) => {
                    let (rest, m) = more_parameters(s, k, (f - 1) as nat);
                    (seq![a] + rest, m)
                }
            },
        }
    }
}

/// `name : expression` entries, one after another.
pub open spec fn field_assignments(s: Seq<char>, i: int, f: nat) -> (Seq<AstV>, int)
    decreases f, 0nat,
{
    if f == 0 {
        (Seq::empty(), i)
    } else {
        let a = match identifier(s, i) {
            None => None,
            Some((id, j)) => match token(s, j, ":"@) {
                None => None,
                Some(k) => match sexpr(s, k, (f - 1) as nat) {
                    None => None,
                    Some((e, m)) => Some((AstV::Op(SKind::FieldAssignment, seq![AstV::ValueIdentifier(id), e]), m)),
                },
            },
        };
        match a {
            None => (Seq::empty(), i),
            Some((a, j)) => {
                let (rest, k) = field_assignments(s, j, (f - 1) as nat);
                (seq![a] + rest, k)
            }
        }
    }
}

/// `new Name { field: value ... }`.
pub open spec fn create_struct_instance(s: Seq<char>, i: int, f: nat) -> Parsed
    decreases f, 1nat,
{
    match token(s, i, "new"@) {
        None => None,
        Some(j) => match identifier(s, j) {
            None => None,
            Some((id, k)) => match token(s, k, "{"@) {
                None => None,
                Some(m) => {
                    let (fields, n) = field_assignments(s, m, f);
                    match token(s, n, "}"@) {
                        Some(e) => Some((
                            AstV::Op(SKind::CreateStruct, seq![AstV::ValueIdentifier(id), AstV::ExpressionList(fields)]),
                            e,
                        )),
                        None => None,
                    }
                }
            },
        },
    }
}

/// `{ expression ... }`.
pub open spec fn body(s: Seq<char>, i: int, f: nat, prefix: Seq<char>) -> Parsed
    decreases f, 1nat,
{
    match token(s, i, "{"@) {
        None => None,
        Some(j) => {
            let (items, k) = statements(s, j, f, prefix);
            match token(s, k, "}"@) {
                Some(e) => Some((AstV::ExpressionList(items), e)),
                None => None,
            }
        }
    }
}

/// Statements, one after another.
pub open spec fn statements(s: Seq<char>, i: int, f: nat, prefix: Seq<char>) -> (Seq<AstV>, int)
    decreases f, 0nat,
{
    if f == 0 {
        (Seq::empty(), i)
    } else {
        match any_ast(s, i, (f - 1) as nat, prefix) {
            None => (Seq::empty(), i),
            Some((a, j)) => {
                let (rest, k) = statements(s, j, (f - 1) as nat, prefix);
                (seq![a] + rest, k)
            }
        }
    }
}

/// The name of a hidden variable of the `for` loop at position `p`.
pub open spec fn loop_name(prefix: Seq<char>, p: int, role: Seq<char>) -> Seq<char> {
    prefix + "-"@ + nat_to_decimal(p as nat) + role
}

/// `let name := e`, `const name := e`, `include "file"`, the loops, `if`,
/// `struct`, `new` and `fn`.
pub open spec fn keyword_form(s: Seq<char>, i: int, f: nat, prefix: Seq<char>) -> Parsed
    decreases f, 7nat,
{
    match token(s, i, "include"@) {
        Some(j) => match string_literal(s, j) {
            Some((t, k)) => Some((AstV::Op(SKind::Include, seq![AstV::Literal(DatatypeV::String(t))]), k)),
            None => declaration(s, i, f, prefix),
        },
        None => declaration(s, i, f, prefix),
    }
}

/// `let name := e` or `const name := e`.
pub open spec fn declaration(s: Seq<char>, i: int, f: nat, prefix: Seq<char>) -> Parsed
    decreases f, 6nat,
{
    let kind = match token(s, i, "let"@) {
        Some(j) => Some((SKind::VariableDeclaration, j)),
        None => match token(s, i, "const"@) {
            Some(j) => Some((SKind::ConstDeclaration, j)),
            None => None,
        },
    };
    let d = match kind {
        None => None,
        Some((k, j)) => match identifier(s, j) {
            None => None,
            Some((id, m)) => match token(s, m, ":="@) {
                None => None,
                Some(n) => match sexpr(s, n, f) {
                    None => None,
                    Some((e, p)) => Some((AstV::Op(k, seq![AstV::ValueIdentifier(id), e]), p)),
                },
            },
        },
    };
    match d {
        Some(r) => Some(r),
        None => control_flow(s, i, f, prefix),
    }
}

/// `while`, `if` and `for`.
pub open spec fn control_flow(s: Seq<char>, i: int, f: nat, prefix: Seq<char>) -> Parsed
    decreases f, 5nat,
{
    let w = match token(s, i, "while"@) {
        None => None,
        Some(j) => match sexpr(s, j, f) {
            None => None,
            Some((c, k)) => match body(s, k, f, prefix) {
                None => None,
                Some((b, m)) => Some((AstV::Op(SKind::Loop, seq![c, b]), m)),
            },
        },
    };
    match w {
        Some(r) => Some(r),
        None => {
            let c = match token(s, i, "if"@) {
                None => None,
                Some(j) => match sexpr(s, j, f) {
                    None => None,
                    Some((c, k)) => match body(s, k, f, prefix) {
                        None => None,
                        Some((t, m)) => match token(s, m, "else"@) {
                            Some(n) => match body(s, n, f, prefix) {
                                Some((e, p)) => Some((AstV::Conditional(Box::new(c), Box::new(t), Some(Box::new(e))), p)),
                                None => Some((AstV::Conditional(Box::new(c), Box::new(t), None), m)),
                            },
                            None => Some((AstV::Conditional(Box::new(c), Box::new(t), None), m)),
                        },
                    },
                },
            };
            match c {
                Some(r) => Some(r),
                None => for_loop(s, i, f, prefix),
            }
        }
    }
}

/// `for name in array { ... }`.
pub open spec fn for_loop(s: Seq<char>, i: int, f: nat, prefix: Seq<char>) -> Parsed
    decreases f, 4nat,
{
    let p = skip_ws(s, i);
    let l = match token(s, i, "for"@) {
        None => None,
        Some(j) => match identifier(s, j) {
            None => None,
            Some((id, k)) => match token(s, k, "in"@) {
                None => None,
                Some(m) => match sexpr(s, m, f) {
                    None => None,
                    Some((a, n)) => match body(s, n, f, prefix) {
                        None => None,
                        Some((b, q)) => Some((
                            for_loop_expression(
                                AstV::ValueIdentifier(id),
                                a,
                                b,
                                loop_name(prefix, p, "-index"@),
                                loop_name(prefix, p, "-length"@),
                                loop_name(prefix, p, "-array"@),
                            ),
                            q,
                        )),
                    },
                },
            },
        },
    };
    match l {
        Some(r) => Some(r),
        None => struct_definition(s, i, f, prefix),
    }
}

/// `struct Name { field : type ... }`.
pub open spec fn struct_definition(s: Seq<char>, i: int, f: nat, prefix: Seq<char>) -> Parsed
    decreases f, 3nat,
{
    let d = match token(s, i, "struct"@) {
        None => None,
        Some(j) => match identifier(s, j) {
            None => None,
            Some((id, k)) => match token(s, k, "{"@) {
                None => None,
                Some(m) => {
                    let (fields, n) = type_assignments(s, m, f);
                    match token(s, n, "}"@) {
                        Some(e) => Some((
                            AstV::Op(SKind::StructDeclaration, seq![AstV::ValueIdentifier(id), AstV::ExpressionList(fields)]),
                            e,
                        )),
                        None => None,
                    }
                }
            },
        },
    };
    match d {
        Some(r) => Some(r),
        None => match create_struct_instance(s, i, f) {
            Some(r) => Some(r),
            None => function(s, i, f, prefix),
        },
    }
}

/// `fn name(parameter : type, ...) -> type { ... }`.
pub open spec fn function(s: Seq<char>, i: int, f: nat, prefix: Seq<char>) -> Parsed
    decreases f, 2nat,
{
    match token(s, i, "fn"@) {
        None => None,
        Some(j) => match identifier(s, j) {
            None => None,
            Some((id, k)) => match token(s, k, "("@) {
                None => None,
                Some(m) => {
                    let (params, n) = parameter_list(s, m, f);
                    match token(s, n, ")"@) {
                        None => None,
                        Some(p) => match token(s, p, "->"@) {
                            None => None,
                            Some(q) => match type_signature(s, q, f) {
                                None => None,
                                Some((t, r)) => match body(s, r, f, prefix) {
                                    None => None,
                                    Some((b, e)) => Some((
                                        AstV::Op(
                                            SKind::DeclareFunction,
                                            seq![
                                                AstV::ValueIdentifier(id),
                                                AstV::Literal(DatatypeV::Function(Box::new(AstV::ExpressionList(params)), Box::new(b), t)),
                                            ],
                                        ),
                                        e,
                                    )),
                                },
                            },
                        },
                    }
                }
            },
        },
    }
}

/// One statement: an expression, or one of the forms that start with a keyword.
pub open spec fn any_ast(s: Seq<char>, i: int, f: nat, prefix: Seq<char>) -> Parsed
    decreases f, 8nat,
{
    if f == 0 {
        None
    } else {
        match sexpr(s, i, (f - 1) as nat) {
            Some(r) => Some(r),
            None => keyword_form(s, i, (f - 1) as nat, prefix),
        }
    }
}

/// The budget of nested calls for a text of `n` characters.
pub open spec fn budget(n: nat) -> nat {
    8 * n + 64
}

/// A program: one or more statements, as a list; with the position where
/// reading stopped, after any trailing whitespace. `prefix` starts the names
/// of the hidden variables of `for` loops.
pub open spec fn parse_program(s: Seq<char>, prefix: Seq<char>) -> Parsed {
    let (items, k) = statements(s, 0, budget(s.len()), prefix);
    if items.len() == 0 {
        None
    } else {
        Some((AstV::ExpressionList(items), skip_ws(s, k)))
    }
}

// The readers. Each mirrors the grammar above.

pub open spec fn view_parsed(r: Option<(Ast, usize)>) -> Parsed {
    match r {
        Some((a, j)) => Some((a@, j as int)),
        None => None,
    }
}

/// `r` is what the grammar's `p` gives, and ends within the text.
pub open spec fn reads(r: Option<(Ast, usize)>, p: Parsed, n: nat) -> bool {
    &&& view_parsed(r) == p
    &&& r matches Some((_, j)) ==> j <= n
}

proof fn lemma_skip_ws_bounds(s: Seq<char>, i: int)
    requires
        0 <= i <= s.len(),
    ensures
        i <= skip_ws(s, i) <= s.len(),
    decreases s.len() - i,
{
    if i < s.len() && is_space(s[i]) {
        lemma_skip_ws_bounds(s, i + 1);
    }
}

fn space(c: char) -> (b: bool)
    ensures
        b == is_space(c),
{
    c == ' ' || c == '\t' || c == '\r' || c == '\n'
}

fn skip_ws_x(s: &Vec<char>, i: usize) -> (j: usize)
    requires
        i <= s.len(),
    ensures
        j as int == skip_ws(s@, i as int),
        i <= j <= s.len(),
{
    let mut j = i;
    while j < s.len() && space(s[j])
        invariant
            i <= j <= s.len(),
            skip_ws(s@, i as int) == skip_ws(s@, j as int),
        decreases s.len() - j,
    {
        j = j + 1;
    }
    j
}

/// Whether the text `t` stands at position `j`.
fn at_text_x(s: &Vec<char>, j: usize, t: &str) -> (b: bool)
    requires
        j <= s.len(),
    ensures
        b == at_text(s@, j as int, t@),
{
    let n = t.unicode_len();
    if n > s.len() - j {
        return false;
    }
    let mut k: usize = 0;
    while k < n
        invariant
            k <= n,
            n == t@.len(),
            j + n <= s.len(),
            s@.subrange(j as int, j + k) == t@.subrange(0, k as int),
        decreases n - k,
    {
        if s[j + k] != t.get_char(k) {
            assert(s@.subrange(j as int, j + n)[k as int] != t@[k as int]);
            return false;
        }
        assert(s@.subrange(j as int, j + k + 1) =~= s@.subrange(j as int, j + k).push(s@[j + k]));
        assert(t@.subrange(0, k + 1) =~= t@.subrange(0, k as int).push(t@[k as int]));
        k = k + 1;
    }
    assert(t@.subrange(0, n as int) =~= t@);
    true
}

/// The token `t` after optional whitespace.
fn token_x(s: &Vec<char>, i: usize, t: &str) -> (r: Option<usize>)
    requires
        i <= s.len(),
    ensures
        match r {
            Some(j) => token(s@, i as int, t@) == Some(j as int) && i <= j <= s.len(),
            None => token(s@, i as int, t@) is None,
        },
{
    let j = skip_ws_x(s, i);
    if at_text_x(s, j, t) {
        Some(j + t.unicode_len())
    } else {
        None
    }
}

fn ident_char(c: char) -> (b: bool)
    ensures
        b == is_ident_char(c),
{
    !(space(c) || c == '.' || c == '(' || c == ')' || c == '{' || c == '}' || c == '<' || c == '>' || c == '['
        || c == ']' || c == ',' || c == ':' || c == ';' || c == '+' || c == '-' || c == '*' || c == '/'
        || c == '%' || c == '!' || c == '=' || c == '"' || c == '&' || c == '|')
}

fn reserved_word(k: usize) -> (w: &'static str)
    requires
        k < 12,
    ensures
        w@ == reserved_words()[k as int],
{
    match k {
        0 => "let",
        1 => "const",
        2 => "fn",
        3 => "if",
        4 => "else",
        5 => "for",
        6 => "while",
        7 => "true",
        8 => "false",
        9 => "struct",
        10 => "new",
        _ => "include",
    }
}

fn reserved_at_x(s: &Vec<char>, j: usize) -> (b: bool)
    requires
        j <= s.len(),
    ensures
        b == reserved_at(s@, j as int),
{
    let mut k: usize = 0;
    while k < 12
        invariant
            k <= 12,
            j <= s.len(),
            reserved_words().len() == 12,
            forall|w: int| 0 <= w < k ==> !(#[trigger] at_text(s@, j as int, reserved_words()[w]) && j
                + reserved_words()[w].len() < s.len() && is_space(s@[j + reserved_words()[w].len()])),
        decreases 12 - k,
    {
        let w = reserved_word(k);
        if at_text_x(s, j, w) {
            let e = j + w.unicode_len();
            if e < s.len() && space(s[e]) {
                return true;
            }
        }
        k = k + 1;
    }
    false
}

/// A name after optional whitespace.
fn identifier_x(s: &Vec<char>, i: usize) -> (r: Option<(Vec<char>, usize)>)
    requires
        i <= s.len(),
    ensures
        match r {
            Some((id, k)) => identifier(s@, i as int) == Some((id@, k as int)) && k <= s.len(),
            None => identifier(s@, i as int) is None,
        },
{
    let j = skip_ws_x(s, i);
    let mut k = j;
    while k < s.len() && ident_char(s[k])
        invariant
            j <= k <= s.len(),
            ident_end(s@, j as int) == ident_end(s@, k as int),
        decreases s.len() - k,
    {
        k = k + 1;
    }
    if reserved_at_x(s, j) || k == j {
        None
    } else {
        let mut id: Vec<char> = Vec::new();
        let mut m = j;
        while m < k
            invariant
                j <= m <= k,
                k <= s.len(),
                id@ == s@.subrange(j as int, m as int),
            decreases k - m,
        {
            id.push(s[m]);
            m = m + 1;
            assert(id@ =~= s@.subrange(j as int, m as int));
        }
        Some((id, k))
    }
}

fn digit(c: char) -> (b: bool)
    ensures
        b == is_digit(c),
{
    '0' <= c && c <= '9'
}

/// A number after optional whitespace: digits whose value fits an `i32`.
fn number_x(s: &Vec<char>, i: usize) -> (r: Option<(i32, usize)>)
    requires
        i <= s.len(),
    ensures
        match r {
            Some((n, k)) => number(s@, i as int) == Some((n, k as int)) && k <= s.len(),
            None => number(s@, i as int) is None,
        },
{
    let j = skip_ws_x(s, i);
    let mut k = j;
    let mut value: i64 = 0;
    let mut big = false;
    assert(s@.subrange(j as int, j as int) =~= Seq::<char>::empty());
    while k < s.len() && digit(s[k])
        invariant
            j <= k <= s.len(),
            digits_end(s@, j as int) == digits_end(s@, k as int),
            big ==> digits_value(s@.subrange(j as int, k as int)) > i32::MAX,
            !big ==> value == digits_value(s@.subrange(j as int, k as int)),
            !big ==> 0 <= value <= i32::MAX,
        decreases s.len() - k,
    {
        let d = s[k];
        proof {
            assert(s@.subrange(j as int, k + 1).drop_last() =~= s@.subrange(j as int, k as int));
            assert(s@.subrange(j as int, k + 1).last() == d);
        }
        if !big {
            let dv: i64 = (d as u32 - '0' as u32) as i64;
            value = value * 10 + dv;
            if value > 0x7fff_ffff {
                big = true;
            }
        }
        k = k + 1;
    }
    if k == j || big {
        None
    } else {
        Some((value as i32, k))
    }
}

/// A string between quotes, after optional whitespace.
fn string_x(s: &Vec<char>, i: usize) -> (r: Option<(Vec<char>, usize)>)
    requires
        i <= s.len(),
    ensures
        match r {
            Some((t, k)) => string_literal(s@, i as int) == Some((t@, k as int)) && k <= s.len(),
            None => string_literal(s@, i as int) is None,
        },
{
    let j = skip_ws_x(s, i);
    if j < s.len() && s[j] == '"' {
        let mut k = j + 1;
        let mut t: Vec<char> = Vec::new();
        while k < s.len() && s[k] != '"'
            invariant
                j < k <= s.len(),
                quote_end(s@, j + 1) == quote_end(s@, k as int),
                t@ == s@.subrange(j + 1, k as int),
            decreases s.len() - k,
        {
            t.push(s[k]);
            k = k + 1;
            assert(t@ =~= s@.subrange(j + 1, k as int));
        }
        if k < s.len() {
            Some((t, k + 1))
        } else {
            None
        }
    } else {
        None
    }
}

fn text_of(v: &Vec<char>) -> (s: String)
    ensures
        s@ == v@,
{
    crate::text::string_from_chars(v.as_slice())
}

/// A number, a string, `true` or `false`.
fn simple_literal_x(s: &Vec<char>, i: usize) -> (r: Option<(Datatype, usize)>)
    requires
        i <= s.len(),
    ensures
        match r {
            Some((d, k)) => simple_literal(s@, i as int) == Some((d@, k as int)) && k <= s.len(),
            None => simple_literal(s@, i as int) is None,
        },
{
    match number_x(s, i) {
        Some((n, j)) => Some((Datatype::Number(n), j)),
        None => match string_x(s, i) {
            Some((t, j)) => Some((Datatype::String(text_of(&t)), j)),
            None => match token_x(s, i, "true") {
                Some(j) => Some((Datatype::Bool(true), j)),
                None => match token_x(s, i, "false") {
                    Some(j) => Some((Datatype::Bool(false), j)),
                    None => None,
                },
            },
        },
    }
}

/// The value of each kind of node a reader builds.
fn ident_ast(v: &Vec<char>) -> (a: Ast)
    ensures
        a@ == AstV::ValueIdentifier(v@),
{
    Ast::ValueIdentifier(text_of(v))
}

fn op1(k: SKind, a: Ast) -> (r: Ast)
    requires
        crate::model::is_unary(k),
    ensures
        r@ == AstV::Op(k, seq![a@]),
{
    Ast::SExpr(crate::deep::rebuild_unary(k, a))
}

fn op2(k: SKind, a: Ast, b: Ast) -> (r: Ast)
    requires
        !crate::model::is_unary(k),
    ensures
        r@ == AstV::Op(k, seq![a@, b@]),
{
    Ast::SExpr(crate::deep::rebuild_binary(k, a, b))
}

fn list_ast(v: Vec<Ast>) -> (r: Ast)
    ensures
        r@ == AstV::ExpressionList(view_asts(v@)),
{
    Ast::ExpressionList(v)
}

fn push_ast(v: &mut Vec<Ast>, a: Ast)
    ensures
        view_asts(final(v)@) == view_asts(old(v)@).push(a@),
{
    proof {
        crate::deep::lemma_view_asts_push(v@, a);
    }
    v.push(a);
}

proof fn lemma_prepend<A>(done: Seq<A>, x: A, rest: Seq<A>)
    ensures
        done + (seq![x] + rest) == done.push(x) + rest,
{
    assert(done + (seq![x] + rest) =~= done.push(x) + rest);
}

/// `, literal` as long as they come.
fn more_elements_x(s: &Vec<char>, i: usize, f: u64) -> (r: (Vec<std::rc::Rc<Datatype>>, usize))
    requires
        i <= s.len(),
    ensures
        (view_dts(r.0@), r.1 as int) == more_elements(s@, i as int, f as nat),
        r.1 <= s.len(),
{
    let mut acc: Vec<std::rc::Rc<Datatype>> = Vec::new();
    assert(view_dts(acc@) =~= Seq::<DatatypeV>::empty());
    let mut pos = i;
    let mut g = f;
    loop
        invariant
            pos <= s.len(),
            more_elements(s@, i as int, f as nat).0 == view_dts(acc@) + more_elements(s@, pos as int, g as nat).0,
            more_elements(s@, i as int, f as nat).1 == more_elements(s@, pos as int, g as nat).1,
        decreases g,
    {
        if g == 0 {
            return (acc, pos);
        }
        match token_x(s, pos, ",") {
            None => {
                return (acc, pos);
            }
            Some(j) => match simple_literal_x(s, j) {
                None => {
                    return (acc, pos);
                }
                Some((v, k)) => {
                    let item = std::rc::Rc::new(v);
                    proof {
                        lemma_prepend(view_dts(acc@), item@, more_elements(s@, k as int, (g - 1) as nat).0);
                        crate::deep::lemma_view_dts_push(acc@, item);
                    }
                    acc.push(item);
                    pos = k;
                    g = g - 1;
                }
            },
        }
    }
}

/// The type an array literal declares.
fn element_type_x(v: &Vec<std::rc::Rc<Datatype>>) -> (t: TypeInfo)
    ensures
        t@ == element_type(view_dts(v@)),
{
    proof {
        crate::model::lemma_view_dts(v@);
    }
    if v.len() == 0 {
        TypeInfo::Any
    } else {
        TypeInfo::from_datatype(&*v[0])
    }
}

/// `[a, b, ...]` of simple literals.
fn array_literal_x(s: &Vec<char>, i: usize, f: u64) -> (r: Option<(Datatype, usize)>)
    requires
        i <= s.len(),
    ensures
        match r {
            Some((d, k)) => array_literal(s@, i as int, f as nat) == Some((d@, k as int)) && k <= s.len(),
            None => array_literal(s@, i as int, f as nat) is None,
        },
{
    match token_x(s, i, "[") {
        None => None,
        Some(j) => {
            let (vs, k) = match simple_literal_x(s, j) {
                Some((v, m)) => {
                    let (rest, e) = more_elements_x(s, m, f);
                    let mut all: Vec<std::rc::Rc<Datatype>> = Vec::new();
                    let first = std::rc::Rc::new(v);
                    proof {
                        crate::deep::lemma_view_dts_push(all@, first);
                    }
                    all.push(first);
                    let mut q: usize = 0;
                    while q < rest.len()
                        invariant
                            q <= rest.len(),
                            view_dts(all@) == seq![first@] + view_dts(rest@.subrange(0, q as int)),
                        decreases rest.len() - q,
                    {
                        let x = crate::deep::share(&rest[q]);
                        proof {
                            crate::deep::lemma_view_dts_push(all@, x);
                            crate::deep::lemma_view_dts_push(rest@.subrange(0, q as int), rest@[q as int]);
                            assert(rest@.subrange(0, q as int).push(rest@[q as int]) =~= rest@.subrange(0, q + 1));
                        }
                        all.push(x);
                        q = q + 1;
                        assert(view_dts(all@) =~= seq![first@] + view_dts(rest@.subrange(0, q as int)));
                    }
                    assert(rest@.subrange(0, q as int) =~= rest@);
                    (all, e)
                }
                None => {
                    let none: Vec<std::rc::Rc<Datatype>> = Vec::new();
                    assert(view_dts(none@) =~= Seq::<DatatypeV>::empty());
                    (none, j)
                }
            };
            match token_x(s, k, "]") {
                Some(e) => {
                    let t = element_type_x(&vs);
                    Some((Datatype::Array { value: vs, type_: t }, e))
                }
                None => None,
            }
        }
    }
}

fn number_literal_ast(n: i32) -> (a: Ast)
    ensures
        a@ == AstV::Literal(DatatypeV::Number(n)),
{
    let d = Datatype::Number(n);
    assert(view_dt(d) == DatatypeV::Number(n));
    Ast::Literal(d)
}

/// `[start..end]`.
fn array_range_x(s: &Vec<char>, i: usize) -> (r: Option<(Ast, usize)>)
    requires
        i <= s.len(),
    ensures
        reads(r, array_range(s@, i as int), s.len() as nat),
{
    let j = token_x(s, i, "[")?;
    let (a, k) = number_x(s, j)?;
    let l = token_x(s, k, "..")?;
    let (b, m) = number_x(s, l)?;
    let e = token_x(s, m, "]")?;
    Some((op2(SKind::Range, number_literal_ast(a), number_literal_ast(b)), e))
}

/// A literal.
fn literal_x(s: &Vec<char>, i: usize, f: u64) -> (r: Option<(Ast, usize)>)
    requires
        i <= s.len(),
    ensures
        reads(r, literal(s@, i as int, f as nat), s.len() as nat),
{
    match array_literal_x(s, i, f) {
        Some((d, j)) => {
            let a = Ast::Literal(d);
            Some((a, j))
        }
        None => match array_range_x(s, i) {
            Some(r) => Some(r),
            None => match simple_literal_x(s, i) {
                Some((d, j)) => Some((Ast::Literal(d), j)),
                None => None,
            },
        },
    }
}

/// A type.
fn type_signature_x(s: &Vec<char>, i: usize, f: u64) -> (r: Option<(TypeInfo, usize)>)
    requires
        i <= s.len(),
    ensures
        match r {
            Some((t, k)) => type_signature(s@, i as int, f as nat) == Some((t@, k as int)) && k <= s.len(),
            None => type_signature(s@, i as int, f as nat) is None,
        },
    decreases f, 0nat,
{
    if f == 0 {
        return None;
    }
    match token_x(s, i, "Number") {
        Some(j) => Some((TypeInfo::Number, j)),
        None => match token_x(s, i, "String") {
            Some(j) => Some((TypeInfo::String, j)),
            None => match token_x(s, i, "Bool") {
                Some(j) => Some((TypeInfo::Bool, j)),
                None => match array_type_x(s, i, f - 1) {
                    Some(r) => Some(r),
                    None => match identifier_x(s, i) {
                        Some((id, j)) => Some((TypeInfo::StructType { identifier: text_of(&id) }, j)),
                        None => None,
                    },
                },
            },
        },
    }
}

/// `[type]`.
fn array_type_x(s: &Vec<char>, i: usize, f: u64) -> (r: Option<(TypeInfo, usize)>)
    requires
        i <= s.len(),
    ensures
        match r {
            Some((t, k)) => array_type(s@, i as int, f as nat) == Some((t@, k as int)) && k <= s.len(),
            None => array_type(s@, i as int, f as nat) is None,
        },
    decreases f, 1nat,
{
    let j = token_x(s, i, "[")?;
    let (t, k) = type_signature_x(s, j, f)?;
    let e = token_x(s, k, "]")?;
    Some((TypeInfo::Array(Box::new(t)), e))
}

fn binary_operator_entry(k: usize) -> (r: (&'static str, Operator))
    requires
        k < 14,
    ensures
        (r.0@, r.1) == binary_operators()[k as int],
{
    match k {
        0 => ("*", Operator::Times),
        1 => ("/", Operator::Divide),
        2 => ("%", Operator::Modulo),
        3 => ("+", Operator::Plus),
        4 => ("-", Operator::Minus),
        5 => (">=", Operator::GreaterThanOrEqual),
        6 => ("<=", Operator::LessThanOrEqual),
        7 => (">", Operator::GreaterThan),
        8 => ("<", Operator::LessThan),
        9 => ("==", Operator::Equals),
        10 => ("!=", Operator::NotEquals),
        11 => ("&&", Operator::LogicalAnd),
        12 => ("||", Operator::LogicalOr),
        _ => (":=", Operator::Assignment),
    }
}

/// The first binary operator that stands at `i`.
fn binary_operator_x(s: &Vec<char>, i: usize) -> (r: Option<(Operator, usize)>)
    requires
        i <= s.len(),
    ensures
        match r {
            Some((op, k)) => first_operator(s@, i as int, binary_operators(), 0) == Some((op, k as int)) && k <= s.len(),
            None => first_operator(s@, i as int, binary_operators(), 0) is None,
        },
{
    let mut k: usize = 0;
    while k < 14
        invariant
            k <= 14,
            i <= s.len(),
            binary_operators().len() == 14,
            first_operator(s@, i as int, binary_operators(), 0) == first_operator(s@, i as int, binary_operators(), k as int),
        decreases 14 - k,
    {
        let (t, op) = binary_operator_entry(k);
        if let Some(j) = token_x(s, i, t) {
            return Some((op, j));
        }
        k = k + 1;
    }
    None
}

/// `++` or `--`.
fn postfix_operator_x(s: &Vec<char>, i: usize) -> (r: Option<(Operator, usize)>)
    requires
        i <= s.len(),
    ensures
        match r {
            Some((op, k)) => postfix_operator(s@, i as int) == Some((op, k as int)) && k <= s.len(),
            None => postfix_operator(s@, i as int) is None,
        },
{
    match token_x(s, i, "++") {
        Some(j) => Some((Operator::Increment, j)),
        None => match token_x(s, i, "--") {
            Some(j) => Some((Operator::Decrement, j)),
            None => None,
        },
    }
}

/// An operand.
fn token_group_x(s: &Vec<char>, i: usize, f: u64) -> (r: Option<(Ast, usize)>)
    requires
        i <= s.len(),
    ensures
        reads(r, token_group(s@, i as int, f as nat), s.len() as nat),
    decreases f, 0nat,
{
    if f == 0 {
        return None;
    }
    let g = f - 1;
    match literal_x(s, i, g) {
        Some(r) => Some(r),
        None => match identifier_x(s, i) {
            Some((id, j)) => Some((ident_ast(&id), j)),
            None => match create_struct_instance_x(s, i, g) {
                Some(r) => Some(r),
                None => match parenthesized_x(s, i, g) {
                    Some(r) => Some(r),
                    None => unary_operand_x(s, i, g),
                },
            },
        },
    }
}

/// `( expression )`.
fn parenthesized_x(s: &Vec<char>, i: usize, f: u64) -> (r: Option<(Ast, usize)>)
    requires
        i <= s.len(),
    ensures
        reads(r, parenthesized(s@, i as int, f as nat), s.len() as nat),
    decreases f, 1nat,
{
    let j = token_x(s, i, "(")?;
    let (e, k) = sexpr_x(s, j, f)?;
    let m = token_x(s, k, ")")?;
    Some((e, m))
}

/// `-operand` or `!operand`.
fn unary_operand_x(s: &Vec<char>, i: usize, f: u64) -> (r: Option<(Ast, usize)>)
    requires
        i <= s.len(),
    ensures
        reads(r, unary_operand(s@, i as int, f as nat), s.len() as nat),
    decreases f, 1nat,
{
    let (k, j) = match token_x(s, i, "-") {
        Some(j) => (Some(SKind::Negate), j),
        None => match token_x(s, i, "!") {
            Some(j) => (Some(SKind::Invert), j),
            None => (None, i),
        },
    };
    match k {
        None => None,
        Some(k) => match token_group_x(s, j, f) {
            Some((g, m)) => Some((op1(k, g), m)),
            None => None,
        },
    }
}

/// What may follow an operand.
fn postfix_item_x(s: &Vec<char>, i: usize, f: u64) -> (r: Option<((Operator, Option<Ast>), usize)>)
    requires
        i <= s.len(),
    ensures
        match r {
            Some((item, k)) => postfix_item(s@, i as int, f as nat) == Some((view_pair(item), k as int)) && k <= s.len(),
            None => postfix_item(s@, i as int, f as nat) is None,
        },
    decreases f, 3nat,
{
    let binary = match binary_operator_x(s, i) {
        Some((op, j)) => match token_group_x(s, j, f) {
            Some((rhs, k)) => Some(((op, Some(rhs)), k)),
            None => None,
        },
        None => None,
    };
    match binary {
        Some(r) => Some(r),
        None => match postfix_operator_x(s, i) {
            Some((op, j)) => Some(((op, None), j)),
            None => match token_x(s, i, "[") {
                Some(j) => match sexpr_x(s, j, f) {
                    Some((e, k)) => match token_x(s, k, "]") {
                        Some(m) => Some(((Operator::ArrayAccess, Some(e)), m)),
                        None => field_or_call_x(s, i, f),
                    },
                    None => field_or_call_x(s, i, f),
                },
                None => field_or_call_x(s, i, f),
            },
        },
    }
}

/// `.field` or `( arguments )`.
fn field_or_call_x(s: &Vec<char>, i: usize, f: u64) -> (r: Option<((Operator, Option<Ast>), usize)>)
    requires
        i <= s.len(),
    ensures
        match r {
            Some((item, k)) => field_or_call(s@, i as int, f as nat) == Some((view_pair(item), k as int)) && k <= s.len(),
            None => field_or_call(s@, i as int, f as nat) is None,
        },
    decreases f, 2nat,
{
    match token_x(s, i, ".") {
        Some(j) => match identifier_x(s, j) {
            Some((id, k)) => Some(((Operator::StructAccess, Some(ident_ast(&id))), k)),
            None => call_arguments_x(s, i, f),
        },
        None => call_arguments_x(s, i, f),
    }
}

/// `( expression, ... )`.
fn call_arguments_x(s: &Vec<char>, i: usize, f: u64) -> (r: Option<((Operator, Option<Ast>), usize)>)
    requires
        i <= s.len(),
    ensures
        match r {
            Some((item, k)) => call_arguments(s@, i as int, f as nat) == Some((view_pair(item), k as int)) && k <= s.len(),
            None => call_arguments(s@, i as int, f as nat) is None,
        },
    decreases f, 1nat,
{
    let j = token_x(s, i, "(")?;
    let (args, k) = expression_list_x(s, j, f);
    let m = token_x(s, k, ")")?;
    Some(((Operator::ExecuteFunction, Some(list_ast(args))), m))
}

/// Expressions separated by commas.
fn expression_list_x(s: &Vec<char>, i: usize, f: u64) -> (r: (Vec<Ast>, usize))
    requires
        i <= s.len(),
    ensures
        (view_asts(r.0@), r.1 as int) == expression_list(s@, i as int, f as nat),
        r.1 <= s.len(),
    decreases f, 0nat,
{
    let mut acc: Vec<Ast> = Vec::new();
    assert(view_asts(acc@) =~= Seq::<AstV>::empty());
    if f == 0 {
        return (acc, i);
    }
    match sexpr_x(s, i, f - 1) {
        None => (acc, i),
        Some((e, j)) => {
            push_ast(&mut acc, e);
            let mut pos = j;
            let mut g = f - 1;
            loop
                invariant
                    pos <= s.len(),
                    g < f,
                    expression_list(s@, i as int, f as nat).0 == view_asts(acc@) + more_expressions(s@, pos as int, g as nat).0,
                    expression_list(s@, i as int, f as nat).1 == more_expressions(s@, pos as int, g as nat).1,
                decreases g,
            {
                if g == 0 {
                    return (acc, pos);
                }
                match token_x(s, pos, ",") {
                    None => {
                        return (acc, pos);
                    }
                    Some(c) => match sexpr_x(s, c, g - 1) {
                        None => {
                            return (acc, pos);
                        }
                        Some((e, k)) => {
                            proof {
                                lemma_prepend(view_asts(acc@), e@, more_expressions(s@, k as int, (g - 1) as nat).0);
                            }
                            push_ast(&mut acc, e);
                            pos = k;
                            g = g - 1;
                        }
                    },
                }
            }
        }
    }
}

/// The run of postfix items after an operand.
fn postfix_items_x(s: &Vec<char>, i: usize, f: u64) -> (r: (Vec<(Operator, Option<Ast>)>, usize))
    requires
        i <= s.len(),
    ensures
        (view_pairs(r.0@), r.1 as int) == postfix_items(s@, i as int, f as nat),
        r.1 <= s.len(),
    decreases f, 0nat,
{
    let mut acc: Vec<(Operator, Option<Ast>)> = Vec::new();
    assert(view_pairs(acc@) =~= Seq::<(Operator, Option<AstV>)>::empty());
    let mut pos = i;
    let mut g = f;
    loop
        invariant
            pos <= s.len(),
            g <= f,
            postfix_items(s@, i as int, f as nat).0 == view_pairs(acc@) + postfix_items(s@, pos as int, g as nat).0,
            postfix_items(s@, i as int, f as nat).1 == postfix_items(s@, pos as int, g as nat).1,
        decreases g,
    {
        if g == 0 {
            return (acc, pos);
        }
        match postfix_item_x(s, pos, g - 1) {
            None => {
                return (acc, pos);
            }
            Some((item, k)) => {
                proof {
                    lemma_prepend(view_pairs(acc@), view_pair(item), postfix_items(s@, k as int, (g - 1) as nat).0);
                    assert(view_pairs(acc@.push(item)) =~= view_pairs(acc@).push(view_pair(item)));
                }
                acc.push(item);
                pos = k;
                g = g - 1;
            }
        }
    }
}

/// An expression.
fn sexpr_x(s: &Vec<char>, i: usize, f: u64) -> (r: Option<(Ast, usize)>)
    requires
        i <= s.len(),
    ensures
        reads(r, sexpr(s@, i as int, f as nat), s.len() as nat),
    decreases f, 0nat,
{
    if f == 0 {
        return None;
    }
    let g = f - 1;
    match token_group_x(s, i, g) {
        Some((first, j)) => {
            let (items, k) = postfix_items_x(s, j, g);
            match crate::expressions::try_group_sexpr_by_precedence(first, &items) {
                Some(e) => Some((e, k)),
                None => unary_operand_x(s, i, g),
            }
        }
        None => unary_operand_x(s, i, g),
    }
}

/// `name : expression` entries.
fn field_assignments_x(s: &Vec<char>, i: usize, f: u64) -> (r: (Vec<Ast>, usize))
    requires
        i <= s.len(),
    ensures
        (view_asts(r.0@), r.1 as int) == field_assignments(s@, i as int, f as nat),
        r.1 <= s.len(),
    decreases f, 0nat,
{
    let mut acc: Vec<Ast> = Vec::new();
    assert(view_asts(acc@) =~= Seq::<AstV>::empty());
    let mut pos = i;
    let mut g = f;
    loop
        invariant
            pos <= s.len(),
            g <= f,
            field_assignments(s@, i as int, f as nat).0 == view_asts(acc@) + field_assignments(s@, pos as int, g as nat).0,
            field_assignments(s@, i as int, f as nat).1 == field_assignments(s@, pos as int, g as nat).1,
        decreases g,
    {
        if g == 0 {
            return (acc, pos);
        }
        let a = match identifier_x(s, pos) {
            None => None,
            Some((id, j)) => match token_x(s, j, ":") {
                None => None,
                Some(k) => match sexpr_x(s, k, g - 1) {
                    None => None,
                    Some((e, m)) => Some((op2(SKind::FieldAssignment, ident_ast(&id), e), m)),
                },
            },
        };
        match a {
            None => {
                return (acc, pos);
            }
            Some((a, j)) => {
                proof {
                    lemma_prepend(view_asts(acc@), a@, field_assignments(s@, j as int, (g - 1) as nat).0);
                }
                push_ast(&mut acc, a);
                pos = j;
                g = g - 1;
            }
        }
    }
}

/// `new Name { field: value ... }`.
fn create_struct_instance_x(s: &Vec<char>, i: usize, f: u64) -> (r: Option<(Ast, usize)>)
    requires
        i <= s.len(),
    ensures
        reads(r, create_struct_instance(s@, i as int, f as nat), s.len() as nat),
    decreases f, 1nat,
{
    let j = token_x(s, i, "new")?;
    let (id, k) = identifier_x(s, j)?;
    let m = token_x(s, k, "{")?;
    let (fields, n) = field_assignments_x(s, m, f);
    let e = token_x(s, n, "}")?;
    Some((op2(SKind::CreateStruct, ident_ast(&id), list_ast(fields)), e))
}

/// `name : type`.
fn type_assignment_x(s: &Vec<char>, i: usize, f: u64) -> (r: Option<(Ast, usize)>)
    requires
        i <= s.len(),
    ensures
        reads(r, type_assignment(s@, i as int, f as nat), s.len() as nat),
{
    let (id, j) = identifier_x(s, i)?;
    let k = token_x(s, j, ":")?;
    let (t, m) = type_signature_x(s, k, f)?;
    let ty = Ast::Type(t);
    Some((op2(SKind::TypeAssignment, ident_ast(&id), ty), m))
}

/// `name : type` entries.
fn type_assignments_x(s: &Vec<char>, i: usize, f: u64) -> (r: (Vec<Ast>, usize))
    requires
        i <= s.len(),
    ensures
        (view_asts(r.0@), r.1 as int) == type_assignments(s@, i as int, f as nat),
        r.1 <= s.len(),
{
    let mut acc: Vec<Ast> = Vec::new();
    assert(view_asts(acc@) =~= Seq::<AstV>::empty());
    let mut pos = i;
    let mut g = f;
    loop
        invariant
            pos <= s.len(),
            type_assignments(s@, i as int, f as nat).0 == view_asts(acc@) + type_assignments(s@, pos as int, g as nat).0,
            type_assignments(s@, i as int, f as nat).1 == type_assignments(s@, pos as int, g as nat).1,
        decreases g,
    {
        if g == 0 {
            return (acc, pos);
        }
        match type_assignment_x(s, pos, g) {
            None => {
                return (acc, pos);
            }
            Some((a, j)) => {
                proof {
                    lemma_prepend(view_asts(acc@), a@, type_assignments(s@, j as int, (g - 1) as nat).0);
                }
                push_ast(&mut acc, a);
                pos = j;
                g = g - 1;
            }
        }
    }
}

/// `name : type` entries separated by commas.
fn parameter_list_x(s: &Vec<char>, i: usize, f: u64) -> (r: (Vec<Ast>, usize))
    requires
        i <= s.len(),
    ensures
        (view_asts(r.0@), r.1 as int) == parameter_list(s@, i as int, f as nat),
        r.1 <= s.len(),
{
    let mut acc: Vec<Ast> = Vec::new();
    assert(view_asts(acc@) =~= Seq::<AstV>::empty());
    match type_assignment_x(s, i, f) {
        None => (acc, i),
        Some((a, j)) => {
            push_ast(&mut acc, a);
            let mut pos = j;
            let mut g = f;
            loop
                invariant
                    pos <= s.len(),
                    parameter_list(s@, i as int, f as nat).0 == view_asts(acc@) + more_parameters(s@, pos as int, g as nat).0,
                    parameter_list(s@, i as int, f as nat).1 == more_parameters(s@, pos as int, g as nat).1,
                decreases g,
            {
                if g == 0 {
                    return (acc, pos);
                }
                match token_x(s, pos, ",") {
                    None => {
                        return (acc, pos);
                    }
                    Some(c) => match type_assignment_x(s, c, g) {
                        None => {
                            return (acc, pos);
                        }
                        Some((a, k)) => {
                            proof {
                                lemma_prepend(view_asts(acc@), a@, more_parameters(s@, k as int, (g - 1) as nat).0);
                            }
                            push_ast(&mut acc, a);
                            pos = k;
                            g = g - 1;
                        }
                    },
                }
            }
        }
    }
}

/// `{ statement ... }`.
fn body_x(s: &Vec<char>, i: usize, f: u64, prefix: &Vec<char>) -> (r: Option<(Ast, usize)>)
    requires
        i <= s.len(),
    ensures
        reads(r, body(s@, i as int, f as nat, prefix@), s.len() as nat),
    decreases f, 1nat,
{
    let j = token_x(s, i, "{")?;
    let (items, k) = statements_x(s, j, f, prefix);
    let e = token_x(s, k, "}")?;
    Some((list_ast(items), e))
}

/// Statements, one after another.
fn statements_x(s: &Vec<char>, i: usize, f: u64, prefix: &Vec<char>) -> (r: (Vec<Ast>, usize))
    requires
        i <= s.len(),
    ensures
        (view_asts(r.0@), r.1 as int) == statements(s@, i as int, f as nat, prefix@),
        r.1 <= s.len(),
    decreases f, 0nat,
{
    let mut acc: Vec<Ast> = Vec::new();
    assert(view_asts(acc@) =~= Seq::<AstV>::empty());
    let mut pos = i;
    let mut g = f;
    loop
        invariant
            pos <= s.len(),
            g <= f,
            statements(s@, i as int, f as nat, prefix@).0 == view_asts(acc@) + statements(s@, pos as int, g as nat, prefix@).0,
            statements(s@, i as int, f as nat, prefix@).1 == statements(s@, pos as int, g as nat, prefix@).1,
        decreases g,
    {
        if g == 0 {
            return (acc, pos);
        }
        match any_ast_x(s, pos, g - 1, prefix) {
            None => {
                return (acc, pos);
            }
            Some((a, j)) => {
                proof {
                    lemma_prepend(view_asts(acc@), a@, statements(s@, j as int, (g - 1) as nat, prefix@).0);
                }
                push_ast(&mut acc, a);
                pos = j;
                g = g - 1;
            }
        }
    }
}

/// The decimal digits of a position.
fn decimal(n: usize) -> (v: Vec<char>)
    ensures
        v@ == nat_to_decimal(n as nat),
    decreases n,
{
    if n < 10 {
        let c = ((n as u8) + 48u8) as char;
        let mut v = Vec::new();
        v.push(c);
        assert(v@ =~= seq![crate::text::digit_char(n as int)]);
        v
    } else {
        let mut v = decimal(n / 10);
        let d = n % 10;
        let c = ((d as u8) + 48u8) as char;
        v.push(c);
        v
    }
}

/// The name of a hidden variable of the `for` loop at position `p`.
fn loop_name_x(prefix: &Vec<char>, p: usize, role: &str) -> (r: String)
    ensures
        r@ == loop_name(prefix@, p as int, role@),
{
    let mut v: Vec<char> = Vec::new();
    let mut k: usize = 0;
    while k < prefix.len()
        invariant
            k <= prefix.len(),
            v@ == prefix@.subrange(0, k as int),
        decreases prefix.len() - k,
    {
        v.push(prefix[k]);
        k = k + 1;
        assert(v@ =~= prefix@.subrange(0, k as int));
    }
    assert(prefix@.subrange(0, k as int) =~= prefix@);
    let head = crate::text::string_from_chars(v.as_slice());
    let head = head.concat("-");
    let digits = decimal(p);
    let head = head.concat(crate::text::string_from_chars(digits.as_slice()).as_str());
    head.concat(role)
}

/// `let`, `const`, `include`, the loops, `if`, `struct`, `new` and `fn`.
fn keyword_form_x(s: &Vec<char>, i: usize, f: u64, prefix: &Vec<char>) -> (r: Option<(Ast, usize)>)
    requires
        i <= s.len(),
    ensures
        reads(r, keyword_form(s@, i as int, f as nat, prefix@), s.len() as nat),
    decreases f, 7nat,
{
    match token_x(s, i, "include") {
        Some(j) => match string_x(s, j) {
            Some((t, k)) => {
                let d = Datatype::String(text_of(&t));
                assert(view_dt(d) == DatatypeV::String(t@));
                Some((op1(SKind::Include, Ast::Literal(d)), k))
            }
            None => declaration_x(s, i, f, prefix),
        },
        None => declaration_x(s, i, f, prefix),
    }
}

/// `let name := e` or `const name := e`.
fn declaration_x(s: &Vec<char>, i: usize, f: u64, prefix: &Vec<char>) -> (r: Option<(Ast, usize)>)
    requires
        i <= s.len(),
    ensures
        reads(r, declaration(s@, i as int, f as nat, prefix@), s.len() as nat),
    decreases f, 6nat,
{
    let kind = match token_x(s, i, "let") {
        Some(j) => Some((SKind::VariableDeclaration, j)),
        None => match token_x(s, i, "const") {
            Some(j) => Some((SKind::ConstDeclaration, j)),
            None => None,
        },
    };
    let d = match kind {
        None => None,
        Some((k, j)) => match identifier_x(s, j) {
            None => None,
            Some((id, m)) => match token_x(s, m, ":=") {
                None => None,
                Some(n) => match sexpr_x(s, n, f) {
                    None => None,
                    Some((e, p)) => Some((op2(k, ident_ast(&id), e), p)),
                },
            },
        },
    };
    match d {
        Some(r) => Some(r),
        None => control_flow_x(s, i, f, prefix),
    }
}

/// `while`, `if` and `for`.
fn control_flow_x(s: &Vec<char>, i: usize, f: u64, prefix: &Vec<char>) -> (r: Option<(Ast, usize)>)
    requires
        i <= s.len(),
    ensures
        reads(r, control_flow(s@, i as int, f as nat, prefix@), s.len() as nat),
    decreases f, 5nat,
{
    let w = match token_x(s, i, "while") {
        None => None,
        Some(j) => match sexpr_x(s, j, f) {
            None => None,
            Some((c, k)) => match body_x(s, k, f, prefix) {
                None => None,
                Some((b, m)) => Some((op2(SKind::Loop, c, b), m)),
            },
        },
    };
    match w {
        Some(r) => Some(r),
        None => {
            let c = match token_x(s, i, "if") {
                None => None,
                Some(j) => match sexpr_x(s, j, f) {
                    None => None,
                    Some((c, k)) => match body_x(s, k, f, prefix) {
                        None => None,
                        Some((t, m)) => {
                            let otherwise = match token_x(s, m, "else") {
                                Some(n) => body_x(s, n, f, prefix),
                                None => None,
                            };
                            match otherwise {
                                Some((e, p)) => Some((
                                    Ast::Conditional { condition: Box::new(c), true_expr: Box::new(t), false_expr: Some(Box::new(e)) },
                                    p,
                                )),
                                None => Some((Ast::Conditional { condition: Box::new(c), true_expr: Box::new(t), false_expr: None }, m)),
                            }
                        }
                    },
                },
            };
            match c {
                Some(r) => Some(r),
                None => for_loop_x(s, i, f, prefix),
            }
        }
    }
}

/// `for name in array { ... }`.
fn for_loop_x(s: &Vec<char>, i: usize, f: u64, prefix: &Vec<char>) -> (r: Option<(Ast, usize)>)
    requires
        i <= s.len(),
    ensures
        reads(r, for_loop(s@, i as int, f as nat, prefix@), s.len() as nat),
    decreases f, 4nat,
{
    let p = skip_ws_x(s, i);
    let l = match token_x(s, i, "for") {
        None => None,
        Some(j) => match identifier_x(s, j) {
            None => None,
            Some((id, k)) => match token_x(s, k, "in") {
                None => None,
                Some(m) => match sexpr_x(s, m, f) {
                    None => None,
                    Some((a, n)) => match body_x(s, n, f, prefix) {
                        None => None,
                        Some((b, q)) => {
                            let index = loop_name_x(prefix, p, "-index");
                            let length = loop_name_x(prefix, p, "-length");
                            let array_name = loop_name_x(prefix, p, "-array");
                            let e = crate::for_loop::for_loop_with_names(ident_ast(&id), a, b, &index, &length, &array_name);
                            Some((e, q))
                        }
                    },
                },
            },
        },
    };
    match l {
        Some(r) => Some(r),
        None => struct_definition_x(s, i, f, prefix),
    }
}

/// `struct Name { field : type ... }`, then `new` and `fn`.
fn struct_definition_x(s: &Vec<char>, i: usize, f: u64, prefix: &Vec<char>) -> (r: Option<(Ast, usize)>)
    requires
        i <= s.len(),
    ensures
        reads(r, struct_definition(s@, i as int, f as nat, prefix@), s.len() as nat),
    decreases f, 3nat,
{
    let d = match token_x(s, i, "struct") {
        None => None,
        Some(j) => match identifier_x(s, j) {
            None => None,
            Some((id, k)) => match token_x(s, k, "{") {
                None => None,
                Some(m) => {
                    let (fields, n) = type_assignments_x(s, m, f);
                    match token_x(s, n, "}") {
                        Some(e) => Some((op2(SKind::StructDeclaration, ident_ast(&id), list_ast(fields)), e)),
                        None => None,
                    }
                }
            },
        },
    };
    match d {
        Some(r) => Some(r),
        None => match create_struct_instance_x(s, i, f) {
            Some(r) => Some(r),
            None => function_x(s, i, f, prefix),
        },
    }
}

/// `fn name(parameter : type, ...) -> type { ... }`.
fn function_x(s: &Vec<char>, i: usize, f: u64, prefix: &Vec<char>) -> (r: Option<(Ast, usize)>)
    requires
        i <= s.len(),
    ensures
        reads(r, function(s@, i as int, f as nat, prefix@), s.len() as nat),
    decreases f, 2nat,
{
    let j = token_x(s, i, "fn")?;
    let (id, k) = identifier_x(s, j)?;
    let m = token_x(s, k, "(")?;
    let (params, n) = parameter_list_x(s, m, f);
    let p = token_x(s, n, ")")?;
    let q = token_x(s, p, "->")?;
    let (t, r) = type_signature_x(s, q, f)?;
    let (b, e) = body_x(s, r, f, prefix)?;
    let ghost pv = view_asts(params@);
    let ghost bv = b@;
    let ghost tv = t@;
    let fun = Datatype::Function { parameters: Box::new(list_ast(params)), body: Box::new(b), return_type: t };
    assert(view_dt(fun) == DatatypeV::Function(Box::new(AstV::ExpressionList(pv)), Box::new(bv), tv));
    let lit = Ast::Literal(fun);
    Some((op2(SKind::DeclareFunction, ident_ast(&id), lit), e))
}

/// One statement.
fn any_ast_x(s: &Vec<char>, i: usize, f: u64, prefix: &Vec<char>) -> (r: Option<(Ast, usize)>)
    requires
        i <= s.len(),
    ensures
        reads(r, any_ast(s@, i as int, f as nat, prefix@), s.len() as nat),
    decreases f, 8nat,
{
    if f == 0 {
        return None;
    }
    match sexpr_x(s, i, f - 1) {
        Some(r) => Some(r),
        None => keyword_form_x(s, i, f - 1, prefix),
    }
}

/// Reads a name from the start of `input`, after optional whitespace, with
/// the number of characters read.
pub fn read_identifier(input: &str) -> (r: Option<(Ast, usize)>)
    ensures
        match identifier(input@, 0) {
            Some((name, k)) => r matches Some((a, j)) && a@ == AstV::ValueIdentifier(name) && j == k,
            None => r is None,
        },
{
    let s = crate::text::chars_of(input);
    match identifier_x(&s, 0) {
        Some((id, k)) => Some((ident_ast(&id), k)),
        None => None,
    }
}

/// Reads one expression from the start of `input`, with the number of
/// characters read.
pub fn expression(input: &str) -> (r: Option<(Ast, usize)>)
    requires
        input@.len() <= 0x1000_0000_0000,
    ensures
        reads(r, sexpr(input@, 0, budget(input@.len())), input@.len()),
{
    let s = crate::text::chars_of(input);
    let f: u64 = 8 * (s.len() as u64) + 64;
    sexpr_x(&s, 0, f)
}

/// Reads a block `{ statements }` from the start of `input`, with the number
/// of characters read.
pub fn read_body(input: &str) -> (r: Option<(Ast, usize)>)
    requires
        input@.len() <= 0x1000_0000_0000,
    ensures
        exists|prefix: Seq<char>|
            crate::for_loop::uuid_shaped(prefix) && reads(r, body(input@, 0, budget(input@.len()), prefix), input@.len()),
{
    let s = crate::text::chars_of(input);
    let uuid = crate::for_loop::random_identifier_chars();
    let f: u64 = 8 * (s.len() as u64) + 64;
    let r = body_x(&s, 0, f, &uuid);
    assert(crate::for_loop::uuid_shaped(uuid@));
    r
}

/// Reads a program from its characters; `prefix` starts the names of the
/// hidden variables of `for` loops.
pub fn parse_program_x(s: &Vec<char>, prefix: &Vec<char>) -> (r: Option<(Ast, usize)>)
    requires
        s.len() <= 0x1000_0000_0000,
    ensures
        reads(r, parse_program(s@, prefix@), s.len() as nat),
{
    let f: u64 = 8 * (s.len() as u64) + 64;
    let (items, k) = statements_x(s, 0, f, prefix);
    if items.len() == 0 {
        None
    } else {
        let e = skip_ws_x(s, k);
        Some((list_ast(items), e))
    }
}

/// Reads a program: one or more statements as a list, with the number of
/// characters read, whitespace after the last statement included. The hidden
/// variables of `for` loops are named after a random uuid and the loop's place.
pub fn program(input: &str) -> (r: Option<(Ast, usize)>)
    requires
        input@.len() <= 0x1000_0000_0000,
    ensures
        exists|prefix: Seq<char>| crate::for_loop::uuid_shaped(prefix) && reads(r, parse_program(input@, prefix), input@.len()),
{
    let s = crate::text::chars_of(input);
    let uuid = crate::for_loop::random_identifier_chars();
    let r = parse_program_x(&s, &uuid);
    assert(crate::for_loop::uuid_shaped(uuid@));
    r
}

} // verus!
