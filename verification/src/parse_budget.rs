use vstd::prelude::*;
use crate::parser::{
    skip_ws, is_space, token, ident_end, is_ident_char, identifier, digits_end, is_digit, number, quote_end, string_literal, simple_literal, first_operator, binary_operators, postfix_operator, array_range, more_elements, array_literal, literal, type_signature, array_type, token_group, parenthesized, unary_operand, sexpr, postfix_items, postfix_item, field_or_call, call_arguments, expression_list, more_expressions, create_struct_instance, field_assignments, type_assignment, type_assignments, more_parameters, parameter_list, body, statements, any_ast, keyword_form, declaration, control_flow, for_loop, struct_definition, function, budget,
};

verus! {

// The budget of nested calls that the readers of the grammar take never cuts
// off a text of `n` characters when it is at least `budget(n)`: from there on
// a larger budget reads exactly the same. Each reader needs a budget of
// eight per character still to read, plus a constant of its own; a reader
// that calls another at the same position needs a larger constant than the
// one it calls, and a call after at least one character read is paid for by
// that character.

/// The characters still to read from `i`.
pub open spec fn gap(s: Seq<char>, i: int) -> int {
    if i < s.len() { s.len() - i } else { 0 }
}

/// The budget that a reader with constant `c` needs at `i`.
pub open spec fn need(s: Seq<char>, i: int, c: int) -> int {
    8 * gap(s, i) + c
}

/// Reading went forward within the text, by at least one character.
pub open spec fn adv(s: Seq<char>, i: int, j: int) -> bool {
    i < j <= s.len()
}

/// Reading stayed in place or went forward within the text.
pub open spec fn fwd(s: Seq<char>, i: int, j: int) -> bool {
    i == j || adv(s, i, j)
}

proof fn skip_ws_bounds(s: Seq<char>, i: int)
    ensures
        i <= skip_ws(s, i),
        i <= s.len() ==> skip_ws(s, i) <= s.len(),
    decreases s.len() - i,
{
    if 0 <= i < s.len() && is_space(s[i]) {
        skip_ws_bounds(s, i + 1);
    }
}

proof fn tok(s: Seq<char>, i: int, t: Seq<char>)
    ensures
        token(s, i, t) matches Some(j) ==> i <= j <= s.len() && (t.len() > 0 ==> i < j),
{
    skip_ws_bounds(s, i);
}

proof fn ident_end_bounds(s: Seq<char>, j: int)
    ensures
        j <= ident_end(s, j),
        ident_end(s, j) > j ==> ident_end(s, j) <= s.len(),
    decreases s.len() - j,
{
    if 0 <= j < s.len() && is_ident_char(s[j]) {
        ident_end_bounds(s, j + 1);
    }
}

proof fn ident(s: Seq<char>, i: int)
    ensures
        identifier(s, i) matches Some((_, k)) ==> adv(s, i, k),
{
    skip_ws_bounds(s, i);
    ident_end_bounds(s, skip_ws(s, i));
}

proof fn digits_end_bounds(s: Seq<char>, j: int)
    ensures
        j <= digits_end(s, j),
        digits_end(s, j) > j ==> digits_end(s, j) <= s.len(),
    decreases s.len() - j,
{
    if 0 <= j < s.len() && is_digit(s[j]) {
        digits_end_bounds(s, j + 1);
    }
}

proof fn quote_end_bounds(s: Seq<char>, j: int)
    ensures
        j <= quote_end(s, j),
    decreases s.len() - j,
{
    if 0 <= j < s.len() && s[j] != '"' {
        quote_end_bounds(s, j + 1);
    }
}

proof fn simple(s: Seq<char>, i: int)
    ensures
        number(s, i) matches Some((_, k)) ==> adv(s, i, k),
        string_literal(s, i) matches Some((_, k)) ==> adv(s, i, k),
        simple_literal(s, i) matches Some((_, k)) ==> adv(s, i, k),
{
    skip_ws_bounds(s, i);
    let j = skip_ws(s, i);
    digits_end_bounds(s, j);
    quote_end_bounds(s, j + 1);
    reveal_strlit("true");
    reveal_strlit("false");
    tok(s, i, "true"@);
    tok(s, i, "false"@);
}

proof fn first_op(s: Seq<char>, i: int, k: int)
    requires
        0 <= k,
    ensures
        first_operator(s, i, binary_operators(), k) matches Some((_, j)) ==> adv(s, i, j),
    decreases binary_operators().len() - k,
{
    reveal_strlit("*");
    reveal_strlit("/");
    reveal_strlit("%");
    reveal_strlit("+");
    reveal_strlit("-");
    reveal_strlit(">=");
    reveal_strlit("<=");
    reveal_strlit(">");
    reveal_strlit("<");
    reveal_strlit("==");
    reveal_strlit("!=");
    reveal_strlit("&&");
    reveal_strlit("||");
    reveal_strlit(":=");
    let ops = binary_operators();
    if k < ops.len() {
        assert(ops[k].0.len() > 0);
        tok(s, i, ops[k].0);
        first_op(s, i, k + 1);
    }
}

proof fn postfix_op(s: Seq<char>, i: int)
    ensures
        postfix_operator(s, i) matches Some((_, j)) ==> adv(s, i, j),
{
    reveal_strlit("++");
    reveal_strlit("--");
    tok(s, i, "++"@);
    tok(s, i, "--"@);
}

proof fn array_range_prog(s: Seq<char>, i: int)
    ensures
        array_range(s, i) matches Some((_, e)) ==> adv(s, i, e),
{
    reveal_strlit("[");
    tok(s, i, "["@);
    if let Some(j) = token(s, i, "["@) {
        simple(s, j);
        if let Some((_, k)) = number(s, j) {
            tok(s, k, ".."@);
            if let Some(l) = token(s, k, ".."@) {
                simple(s, l);
                if let Some((_, m)) = number(s, l) {
                    tok(s, m, "]"@);
                }
            }
        }
    }
}

proof fn st_more_elements(s: Seq<char>, i: int, f: nat, g: nat)
    requires
        f >= need(s, i, 1),
        g >= f,
    ensures
        more_elements(s, i, f) == more_elements(s, i, g),
        fwd(s, i, more_elements(s, i, f).1),
    decreases f,
{
    tok(s, i, ","@);
    if let Some(j) = token(s, i, ","@) {
        simple(s, j);
        if let Some((_, k)) = simple_literal(s, j) {
            st_more_elements(s, k, (f - 1) as nat, (g - 1) as nat);
        }
    }
}

proof fn st_array_literal(s: Seq<char>, i: int, f: nat, g: nat)
    requires
        f >= need(s, i, 1),
        g >= f,
    ensures
        array_literal(s, i, f) == array_literal(s, i, g),
        array_literal(s, i, f) matches Some((_, e)) ==> adv(s, i, e),
{
    reveal_strlit("[");
    tok(s, i, "["@);
    if let Some(j) = token(s, i, "["@) {
        simple(s, j);
        if let Some((_, m)) = simple_literal(s, j) {
            st_more_elements(s, m, f, g);
            tok(s, more_elements(s, m, f).1, "]"@);
        } else {
            tok(s, j, "]"@);
        }
    }
}

proof fn st_literal(s: Seq<char>, i: int, f: nat, g: nat)
    requires
        f >= need(s, i, 1),
        g >= f,
    ensures
        literal(s, i, f) == literal(s, i, g),
        literal(s, i, f) matches Some((_, e)) ==> adv(s, i, e),
{
    st_array_literal(s, i, f, g);
    array_range_prog(s, i);
    simple(s, i);
}

proof fn st_type_signature(s: Seq<char>, i: int, f: nat, g: nat)
    requires
        f >= need(s, i, 2),
        g >= f,
    ensures
        type_signature(s, i, f) == type_signature(s, i, g),
        type_signature(s, i, f) matches Some((_, e)) ==> adv(s, i, e),
    decreases f, 0nat,
{
    reveal_strlit("Number");
    reveal_strlit("String");
    reveal_strlit("Bool");
    tok(s, i, "Number"@);
    tok(s, i, "String"@);
    tok(s, i, "Bool"@);
    st_array_type(s, i, (f - 1) as nat, (g - 1) as nat);
    ident(s, i);
}

proof fn st_array_type(s: Seq<char>, i: int, f: nat, g: nat)
    requires
        f >= need(s, i, 1),
        g >= f,
    ensures
        array_type(s, i, f) == array_type(s, i, g),
        array_type(s, i, f) matches Some((_, e)) ==> adv(s, i, e),
    decreases f, 1nat,
{
    reveal_strlit("[");
    tok(s, i, "["@);
    if let Some(j) = token(s, i, "["@) {
        st_type_signature(s, j, f, g);
        if let Some((_, k)) = type_signature(s, j, f) {
            tok(s, k, "]"@);
        }
    }
}

proof fn st_token_group(s: Seq<char>, i: int, f: nat, g: nat)
    requires
        f >= need(s, i, 9),
        g >= f,
    ensures
        token_group(s, i, f) == token_group(s, i, g),
        token_group(s, i, f) matches Some((_, e)) ==> adv(s, i, e),
    decreases f, 0nat,
{
    let f1 = (f - 1) as nat;
    let g1 = (g - 1) as nat;
    st_literal(s, i, f1, g1);
    ident(s, i);
    st_create_struct_instance(s, i, f1, g1);
    st_parenthesized(s, i, f1, g1);
    st_unary_operand(s, i, f1, g1);
}

proof fn st_parenthesized(s: Seq<char>, i: int, f: nat, g: nat)
    requires
        f >= need(s, i, 2),
        g >= f,
    ensures
        parenthesized(s, i, f) == parenthesized(s, i, g),
        parenthesized(s, i, f) matches Some((_, e)) ==> adv(s, i, e),
    decreases f, 1nat,
{
    reveal_strlit("(");
    tok(s, i, "("@);
    if let Some(j) = token(s, i, "("@) {
        st_sexpr(s, j, f, g);
        if let Some((_, k)) = sexpr(s, j, f) {
            tok(s, k, ")"@);
        }
    }
}

proof fn st_unary_operand(s: Seq<char>, i: int, f: nat, g: nat)
    requires
        f >= need(s, i, 2),
        g >= f,
    ensures
        unary_operand(s, i, f) == unary_operand(s, i, g),
        unary_operand(s, i, f) matches Some((_, e)) ==> adv(s, i, e),
    decreases f, 1nat,
{
    reveal_strlit("-");
    reveal_strlit("!");
    tok(s, i, "-"@);
    tok(s, i, "!"@);
    if let Some(j) = token(s, i, "-"@) {
        st_token_group(s, j, f, g);
    } else if let Some(j) = token(s, i, "!"@) {
        st_token_group(s, j, f, g);
    }
}

proof fn st_sexpr(s: Seq<char>, i: int, f: nat, g: nat)
    requires
        f >= need(s, i, 10),
        g >= f,
    ensures
        sexpr(s, i, f) == sexpr(s, i, g),
        sexpr(s, i, f) matches Some((_, e)) ==> adv(s, i, e),
    decreases f, 0nat,
{
    let f1 = (f - 1) as nat;
    let g1 = (g - 1) as nat;
    st_token_group(s, i, f1, g1);
    if let Some((_, j)) = token_group(s, i, f1) {
        st_postfix_items(s, j, f1, g1);
    }
    st_unary_operand(s, i, f1, g1);
}

proof fn st_postfix_items(s: Seq<char>, i: int, f: nat, g: nat)
    requires
        f >= need(s, i, 4),
        g >= f,
    ensures
        postfix_items(s, i, f) == postfix_items(s, i, g),
        fwd(s, i, postfix_items(s, i, f).1),
    decreases f, 0nat,
{
    let f1 = (f - 1) as nat;
    let g1 = (g - 1) as nat;
    st_postfix_item(s, i, f1, g1);
    if let Some((_, j)) = postfix_item(s, i, f1) {
        st_postfix_items(s, j, f1, g1);
    }
}

proof fn st_postfix_item(s: Seq<char>, i: int, f: nat, g: nat)
    requires
        f >= need(s, i, 3),
        g >= f,
    ensures
        postfix_item(s, i, f) == postfix_item(s, i, g),
        postfix_item(s, i, f) matches Some((_, e)) ==> adv(s, i, e),
    decreases f, 3nat,
{
    first_op(s, i, 0);
    if let Some((_, j)) = first_operator(s, i, binary_operators(), 0) {
        st_token_group(s, j, f, g);
    }
    postfix_op(s, i);
    reveal_strlit("[");
    tok(s, i, "["@);
    if let Some(j) = token(s, i, "["@) {
        st_sexpr(s, j, f, g);
        if let Some((_, k)) = sexpr(s, j, f) {
            tok(s, k, "]"@);
        }
    }
    st_field_or_call(s, i, f, g);
}

proof fn st_field_or_call(s: Seq<char>, i: int, f: nat, g: nat)
    requires
        f >= need(s, i, 3),
        g >= f,
    ensures
        field_or_call(s, i, f) == field_or_call(s, i, g),
        field_or_call(s, i, f) matches Some((_, e)) ==> adv(s, i, e),
    decreases f, 2nat,
{
    tok(s, i, "."@);
    if let Some(j) = token(s, i, "."@) {
        ident(s, j);
    }
    st_call_arguments(s, i, f, g);
}

proof fn st_call_arguments(s: Seq<char>, i: int, f: nat, g: nat)
    requires
        f >= need(s, i, 3),
        g >= f,
    ensures
        call_arguments(s, i, f) == call_arguments(s, i, g),
        call_arguments(s, i, f) matches Some((_, e)) ==> adv(s, i, e),
    decreases f, 1nat,
{
    reveal_strlit("(");
    tok(s, i, "("@);
    if let Some(j) = token(s, i, "("@) {
        st_expression_list(s, j, f, g);
        tok(s, expression_list(s, j, f).1, ")"@);
    }
}

proof fn st_expression_list(s: Seq<char>, i: int, f: nat, g: nat)
    requires
        f >= need(s, i, 11),
        g >= f,
    ensures
        expression_list(s, i, f) == expression_list(s, i, g),
        fwd(s, i, expression_list(s, i, f).1),
    decreases f, 0nat,
{
    let f1 = (f - 1) as nat;
    let g1 = (g - 1) as nat;
    st_sexpr(s, i, f1, g1);
    if let Some((_, j)) = sexpr(s, i, f1) {
        st_more_expressions(s, j, f1, g1);
    }
}

proof fn st_more_expressions(s: Seq<char>, i: int, f: nat, g: nat)
    requires
        f >= need(s, i, 3),
        g >= f,
    ensures
        more_expressions(s, i, f) == more_expressions(s, i, g),
        fwd(s, i, more_expressions(s, i, f).1),
    decreases f, 0nat,
{
    let f1 = (f - 1) as nat;
    let g1 = (g - 1) as nat;
    reveal_strlit(",");
    tok(s, i, ","@);
    if let Some(j) = token(s, i, ","@) {
        st_sexpr(s, j, f1, g1);
        if let Some((_, k)) = sexpr(s, j, f1) {
            st_more_expressions(s, k, f1, g1);
        }
    }
}

proof fn st_create_struct_instance(s: Seq<char>, i: int, f: nat, g: nat)
    requires
        f >= need(s, i, 2),
        g >= f,
    ensures
        create_struct_instance(s, i, f) == create_struct_instance(s, i, g),
        create_struct_instance(s, i, f) matches Some((_, e)) ==> adv(s, i, e),
    decreases f, 1nat,
{
    tok(s, i, "new"@);
    if let Some(j) = token(s, i, "new"@) {
        ident(s, j);
        if let Some((_, k)) = identifier(s, j) {
            tok(s, k, "{"@);
            if let Some(m) = token(s, k, "{"@) {
                st_field_assignments(s, m, f, g);
                tok(s, field_assignments(s, m, f).1, "}"@);
            }
        }
    }
}

proof fn st_field_assignments(s: Seq<char>, i: int, f: nat, g: nat)
    requires
        f >= need(s, i, 3),
        g >= f,
    ensures
        field_assignments(s, i, f) == field_assignments(s, i, g),
        fwd(s, i, field_assignments(s, i, f).1),
    decreases f, 0nat,
{
    let f1 = (f - 1) as nat;
    let g1 = (g - 1) as nat;
    ident(s, i);
    if let Some((_, j)) = identifier(s, i) {
        tok(s, j, ":"@);
        if let Some(k) = token(s, j, ":"@) {
            st_sexpr(s, k, f1, g1);
            if let Some((_, m)) = sexpr(s, k, f1) {
                st_field_assignments(s, m, f1, g1);
            }
        }
    }
}

proof fn st_type_assignment(s: Seq<char>, i: int, f: nat, g: nat)
    requires
        f >= need(s, i, 1),
        g >= f,
    ensures
        type_assignment(s, i, f) == type_assignment(s, i, g),
        type_assignment(s, i, f) matches Some((_, e)) ==> adv(s, i, e),
{
    ident(s, i);
    if let Some((_, j)) = identifier(s, i) {
        tok(s, j, ":"@);
        if let Some(k) = token(s, j, ":"@) {
            st_type_signature(s, k, f, g);
        }
    }
}

proof fn st_type_assignments(s: Seq<char>, i: int, f: nat, g: nat)
    requires
        f >= need(s, i, 1),
        g >= f,
    ensures
        type_assignments(s, i, f) == type_assignments(s, i, g),
        fwd(s, i, type_assignments(s, i, f).1),
    decreases f,
{
    st_type_assignment(s, i, f, g);
    if let Some((_, j)) = type_assignment(s, i, f) {
        st_type_assignments(s, j, (f - 1) as nat, (g - 1) as nat);
    }
}

proof fn st_more_parameters(s: Seq<char>, i: int, f: nat, g: nat)
    requires
        f >= need(s, i, 1),
        g >= f,
    ensures
        more_parameters(s, i, f) == more_parameters(s, i, g),
        fwd(s, i, more_parameters(s, i, f).1),
    decreases f,
{
    tok(s, i, ","@);
    if let Some(j) = token(s, i, ","@) {
        st_type_assignment(s, j, f, g);
        if let Some((_, k)) = type_assignment(s, j, f) {
            st_more_parameters(s, k, (f - 1) as nat, (g - 1) as nat);
        }
    }
}

proof fn st_parameter_list(s: Seq<char>, i: int, f: nat, g: nat)
    requires
        f >= need(s, i, 1),
        g >= f,
    ensures
        parameter_list(s, i, f) == parameter_list(s, i, g),
        fwd(s, i, parameter_list(s, i, f).1),
{
    st_type_assignment(s, i, f, g);
    if let Some((_, j)) = type_assignment(s, i, f) {
        st_more_parameters(s, j, f, g);
    }
}

proof fn st_body(s: Seq<char>, i: int, f: nat, g: nat, prefix: Seq<char>)
    requires
        f >= need(s, i, 4),
        g >= f,
    ensures
        body(s, i, f, prefix) == body(s, i, g, prefix),
        body(s, i, f, prefix) matches Some((_, e)) ==> adv(s, i, e),
    decreases f, 1nat,
{
    reveal_strlit("{");
    tok(s, i, "{"@);
    if let Some(j) = token(s, i, "{"@) {
        st_statements(s, j, f, g, prefix);
        tok(s, statements(s, j, f, prefix).1, "}"@);
    }
}

proof fn st_statements(s: Seq<char>, i: int, f: nat, g: nat, prefix: Seq<char>)
    requires
        f >= need(s, i, 12),
        g >= f,
    ensures
        statements(s, i, f, prefix) == statements(s, i, g, prefix),
        fwd(s, i, statements(s, i, f, prefix).1),
    decreases f, 0nat,
{
    let f1 = (f - 1) as nat;
    let g1 = (g - 1) as nat;
    st_any_ast(s, i, f1, g1, prefix);
    if let Some((_, j)) = any_ast(s, i, f1, prefix) {
        st_statements(s, j, f1, g1, prefix);
    }
}

proof fn st_any_ast(s: Seq<char>, i: int, f: nat, g: nat, prefix: Seq<char>)
    requires
        f >= need(s, i, 11),
        g >= f,
    ensures
        any_ast(s, i, f, prefix) == any_ast(s, i, g, prefix),
        any_ast(s, i, f, prefix) matches Some((_, e)) ==> adv(s, i, e),
    decreases f, 8nat,
{
    let f1 = (f - 1) as nat;
    let g1 = (g - 1) as nat;
    st_sexpr(s, i, f1, g1);
    st_keyword_form(s, i, f1, g1, prefix);
}

proof fn st_keyword_form(s: Seq<char>, i: int, f: nat, g: nat, prefix: Seq<char>)
    requires
        f >= need(s, i, 4),
        g >= f,
    ensures
        keyword_form(s, i, f, prefix) == keyword_form(s, i, g, prefix),
        keyword_form(s, i, f, prefix) matches Some((_, e)) ==> adv(s, i, e),
    decreases f, 7nat,
{
    tok(s, i, "include"@);
    if let Some(j) = token(s, i, "include"@) {
        simple(s, j);
    }
    st_declaration(s, i, f, g, prefix);
}

proof fn st_declaration(s: Seq<char>, i: int, f: nat, g: nat, prefix: Seq<char>)
    requires
        f >= need(s, i, 4),
        g >= f,
    ensures
        declaration(s, i, f, prefix) == declaration(s, i, g, prefix),
        declaration(s, i, f, prefix) matches Some((_, e)) ==> adv(s, i, e),
    decreases f, 6nat,
{
    tok(s, i, "let"@);
    tok(s, i, "const"@);
    let j = match token(s, i, "let"@) {
        Some(j) => Some(j),
        None => token(s, i, "const"@),
    };
    if let Some(j) = j {
        ident(s, j);
        if let Some((_, m)) = identifier(s, j) {
            tok(s, m, ":="@);
            if let Some(n) = token(s, m, ":="@) {
                st_sexpr(s, n, f, g);
            }
        }
    }
    st_control_flow(s, i, f, g, prefix);
}

proof fn st_control_flow(s: Seq<char>, i: int, f: nat, g: nat, prefix: Seq<char>)
    requires
        f >= need(s, i, 4),
        g >= f,
    ensures
        control_flow(s, i, f, prefix) == control_flow(s, i, g, prefix),
        control_flow(s, i, f, prefix) matches Some((_, e)) ==> adv(s, i, e),
    decreases f, 5nat,
{
    reveal_strlit("while");
    reveal_strlit("if");
    tok(s, i, "while"@);
    if let Some(j) = token(s, i, "while"@) {
        st_sexpr(s, j, f, g);
        if let Some((_, k)) = sexpr(s, j, f) {
            st_body(s, k, f, g, prefix);
        }
    }
    tok(s, i, "if"@);
    if let Some(j) = token(s, i, "if"@) {
        st_sexpr(s, j, f, g);
        if let Some((_, k)) = sexpr(s, j, f) {
            st_body(s, k, f, g, prefix);
            if let Some((_, m)) = body(s, k, f, prefix) {
                tok(s, m, "else"@);
                if let Some(n) = token(s, m, "else"@) {
                    st_body(s, n, f, g, prefix);
                }
            }
        }
    }
    st_for_loop(s, i, f, g, prefix);
}

proof fn st_for_loop(s: Seq<char>, i: int, f: nat, g: nat, prefix: Seq<char>)
    requires
        f >= need(s, i, 4),
        g >= f,
    ensures
        for_loop(s, i, f, prefix) == for_loop(s, i, g, prefix),
        for_loop(s, i, f, prefix) matches Some((_, e)) ==> adv(s, i, e),
    decreases f, 4nat,
{
    tok(s, i, "for"@);
    if let Some(j) = token(s, i, "for"@) {
        ident(s, j);
        if let Some((_, k)) = identifier(s, j) {
            tok(s, k, "in"@);
            if let Some(m) = token(s, k, "in"@) {
                st_sexpr(s, m, f, g);
                if let Some((_, n)) = sexpr(s, m, f) {
                    st_body(s, n, f, g, prefix);
                }
            }
        }
    }
    st_struct_definition(s, i, f, g, prefix);
}

proof fn st_struct_definition(s: Seq<char>, i: int, f: nat, g: nat, prefix: Seq<char>)
    requires
        f >= need(s, i, 4),
        g >= f,
    ensures
        struct_definition(s, i, f, prefix) == struct_definition(s, i, g, prefix),
        struct_definition(s, i, f, prefix) matches Some((_, e)) ==> adv(s, i, e),
    decreases f, 3nat,
{
    tok(s, i, "struct"@);
    if let Some(j) = token(s, i, "struct"@) {
        ident(s, j);
        if let Some((_, k)) = identifier(s, j) {
            tok(s, k, "{"@);
            if let Some(m) = token(s, k, "{"@) {
                st_type_assignments(s, m, f, g);
                tok(s, type_assignments(s, m, f).1, "}"@);
            }
        }
    }
    st_create_struct_instance(s, i, f, g);
    st_function(s, i, f, g, prefix);
}

proof fn st_function(s: Seq<char>, i: int, f: nat, g: nat, prefix: Seq<char>)
    requires
        f >= need(s, i, 4),
        g >= f,
    ensures
        function(s, i, f, prefix) == function(s, i, g, prefix),
        function(s, i, f, prefix) matches Some((_, e)) ==> adv(s, i, e),
    decreases f, 2nat,
{
    tok(s, i, "fn"@);
    if let Some(j) = token(s, i, "fn"@) {
        ident(s, j);
        if let Some((_, k)) = identifier(s, j) {
            tok(s, k, "("@);
            if let Some(m) = token(s, k, "("@) {
                st_parameter_list(s, m, f, g);
                let n = parameter_list(s, m, f).1;
                tok(s, n, ")"@);
                if let Some(p) = token(s, n, ")"@) {
                    tok(s, p, "->"@);
                    if let Some(q) = token(s, p, "->"@) {
                        st_type_signature(s, q, f, g);
                        if let Some((_, r)) = type_signature(s, q, f) {
                            st_body(s, r, f, g, prefix);
                        }
                    }
                }
            }
        }
    }
}

/// The budget `budget(n)` never cuts a program of `n` characters short:
/// reading its statements with any larger budget gives the same result, so
/// `parse_program` is what the grammar gives without any bound.
pub proof fn law_program_budget_suffices(s: Seq<char>, prefix: Seq<char>, larger: nat)
    requires
        larger >= budget(s.len()),
    ensures
        statements(s, 0, larger, prefix) == statements(s, 0, budget(s.len()), prefix),
{
    st_statements(s, 0, budget(s.len()), larger, prefix);
}

/// The same for one expression, as `expression` reads it.
pub proof fn law_expression_budget_suffices(s: Seq<char>, larger: nat)
    requires
        larger >= budget(s.len()),
    ensures
        sexpr(s, 0, larger) == sexpr(s, 0, budget(s.len())),
{
    st_sexpr(s, 0, budget(s.len()), larger);
}

/// The same for a block, as `read_body` reads it.
pub proof fn law_body_budget_suffices(s: Seq<char>, prefix: Seq<char>, larger: nat)
    requires
        larger >= budget(s.len()),
    ensures
        body(s, 0, larger, prefix) == body(s, 0, budget(s.len()), prefix),
{
    st_body(s, 0, budget(s.len()), larger, prefix);
}

} // verus!
