use vstd::prelude::*;
use crate::ast::{Ast, Datatype};
use crate::model::{AstV, DatatypeV, SKind, view_asts, view_dt};
use crate::deep::{rebuild_unary, rebuild_binary, copy_string, lemma_view_asts_push};

verus! {

// `for x in array { body }` is written in terms of a loop over an index,
// kept in variables whose names no program can write.

/// The shape of a random uuid written with hyphens: 36 characters, lowercase
/// hexadecimal digits in groups of 8, 4, 4, 4 and 12 with a hyphen between groups.
pub open spec fn uuid_shaped(s: Seq<char>) -> bool {
    &&& s.len() == 36
    &&& forall|i: int| 0 <= i < 36 ==> (#[trigger] s[i] == '-') == (i == 8 || i == 13 || i == 18 || i == 23)
    &&& forall|i: int| 0 <= i < 36 && i != 8 && i != 13 && i != 18 && i != 23 ==>
        (('0' <= #[trigger] s[i] && s[i] <= '9') || ('a' <= s[i] && s[i] <= 'f'))
}

/// `uuid::Uuid::new(UuidVersion::Random)`, written out by `hyphenated()`.
/// With the crate's `v4` feature the constructor always gives a random
/// (version 4) uuid; its hyphenated form is 36 characters: lowercase hex
/// digits in groups of 8, 4, 4, 4 and 12 separated by hyphens. Which digits
/// come is left to chance and is not stated.
#[verifier::external_body]
fn random_identifier() -> (s: String)
    ensures
        uuid_shaped(s@),
{
    uuid::Uuid::new(uuid::UuidVersion::Random).unwrap().hyphenated().to_string()
}

/// The characters of a fresh random uuid.
pub fn random_identifier_chars() -> (v: Vec<char>)
    ensures
        uuid_shaped(v@),
{
    let id = random_identifier();
    crate::text::chars_of(id.as_str())
}

pub open spec fn id_v(name: Seq<char>) -> AstV {
    AstV::ValueIdentifier(name)
}

pub open spec fn assign_v(target: AstV, value: AstV) -> AstV {
    AstV::Op(SKind::Assignment, seq![target, value])
}

/// The loop that `for variable in array { body }` stands for, with `index`,
/// `length` and `array_name` as the names of the hidden variables. An array
/// named by a variable is read through that variable; any other array is
/// computed once and kept under `array_name`.
pub open spec fn for_loop_expression(
    variable: AstV,
    array: AstV,
    body: AstV,
    index: Seq<char>,
    length: Seq<char>,
    array_name: Seq<char>,
) -> AstV {
    let source = match array {
        AstV::ValueIdentifier(id) => id,
        _ => array_name,
    };
    let start = assign_v(id_v(index), AstV::Literal(DatatypeV::Number(0)));
    let measure = assign_v(id_v(length), AstV::Op(SKind::GetArrayLength, seq![id_v(source)]));
    let step = AstV::Op(
        SKind::Loop,
        seq![
            AstV::Op(SKind::LessThan, seq![id_v(index), id_v(length)]),
            AstV::ExpressionList(
                seq![
                    assign_v(variable, AstV::Op(SKind::AccessArray, seq![id_v(source), id_v(index)])),
                    body,
                    assign_v(id_v(index), AstV::Op(SKind::Increment, seq![id_v(index)])),
                ],
            ),
        ],
    );
    match array {
        AstV::ValueIdentifier(_) => AstV::ExpressionList(seq![start, measure, step]),
        _ => AstV::ExpressionList(seq![start, assign_v(id_v(array_name), array), measure, step]),
    }
}

fn ident(name: &String) -> (a: Ast)
    ensures
        a@ == id_v(name@),
{
    Ast::ValueIdentifier(copy_string(name))
}

fn assign(target: Ast, value: Ast) -> (a: Ast)
    ensures
        a@ == assign_v(target@, value@),
{
    Ast::SExpr(rebuild_binary(SKind::Assignment, target, value))
}

fn binary(k: SKind, x: Ast, y: Ast) -> (a: Ast)
    requires
        !crate::model::is_unary(k),
    ensures
        a@ == AstV::Op(k, seq![x@, y@]),
{
    Ast::SExpr(rebuild_binary(k, x, y))
}

fn unary(k: SKind, x: Ast) -> (a: Ast)
    requires
        crate::model::is_unary(k),
    ensures
        a@ == AstV::Op(k, seq![x@]),
{
    Ast::SExpr(rebuild_unary(k, x))
}

/// A list of the given expressions, in order.
fn list(items: Vec<Ast>) -> (a: Ast)
    ensures
        a@ == AstV::ExpressionList(view_asts(items@)),
{
    Ast::ExpressionList(items)
}

fn push_item(v: &mut Vec<Ast>, a: Ast)
    ensures
        view_asts(final(v)@) == view_asts(old(v)@).push(a@),
{
    proof {
        lemma_view_asts_push(v@, a);
    }
    v.push(a);
}

/// Builds the loop that `for variable in array { body }` stands for, with
/// the given names for the hidden variables.
pub fn for_loop_with_names(
    variable: Ast,
    array: Ast,
    for_body: Ast,
    index: &String,
    length: &String,
    array_name: &String,
) -> (r: Ast)
    ensures
        r@ == for_loop_expression(variable@, array@, for_body@, index@, length@, array_name@),
{
    let ghost av = array@;
    let ghost vv = variable@;
    let ghost bv = for_body@;
    let ghost src = match av {
        AstV::ValueIdentifier(id) => id,
        _ => array_name@,
    };
    let source: String = match &array {
        Ast::ValueIdentifier(id) => copy_string(id),
        other => {
            proof {
                if let Ast::SExpr(s2) = other {
                    crate::model::lemma_view_sexpr_is_op(*s2);
                }
            }
            copy_string(array_name)
        }
    };
    let is_named = match &array {
        Ast::ValueIdentifier(_) => true,
        _ => false,
    };
    assert(source@ == src);
    assert(is_named == (av is ValueIdentifier));
    let zero_value = Datatype::Number(0);
    assert(view_dt(zero_value) == DatatypeV::Number(0));
    let zero = Ast::Literal(zero_value);
    assert(zero@ == AstV::Literal(DatatypeV::Number(0)));
    let start = assign(ident(index), zero);
    let measure = assign(ident(length), unary(SKind::GetArrayLength, ident(&source)));
    let condition = binary(SKind::LessThan, ident(index), ident(length));
    let fetch = assign(variable, binary(SKind::AccessArray, ident(&source), ident(index)));
    let advance = assign(ident(index), unary(SKind::Increment, ident(index)));
    let mut steps: Vec<Ast> = Vec::new();
    assert(view_asts(steps@) =~= Seq::<AstV>::empty());
    push_item(&mut steps, fetch);
    push_item(&mut steps, for_body);
    push_item(&mut steps, advance);
    let looped = binary(SKind::Loop, condition, list(steps));
    let mut items: Vec<Ast> = Vec::new();
    assert(view_asts(items@) =~= Seq::<AstV>::empty());
    push_item(&mut items, start);
    if !is_named {
        push_item(&mut items, assign(ident(array_name), array));
    }
    push_item(&mut items, measure);
    push_item(&mut items, looped);
    let r = list(items);
    proof {
        let e = for_loop_expression(vv, av, bv, index@, length@, array_name@);
        assert(view_asts(steps@) == seq![fetch@, bv, advance@]);
        if is_named {
            assert(view_asts(items@) =~= seq![start@, measure@, looped@]);
        } else {
            assert(view_asts(items@) =~= seq![start@, assign_v(id_v(array_name@), av), measure@, looped@]);
        }
        assert(r@ == e);
    }
    r
}

/// Builds the loop that `for variable in array { body }` stands for, naming
/// its hidden variables with fresh random uuids.
pub fn create_for_loop(identifier: Ast, array: Ast, for_body: Ast) -> (r: Ast)
    ensures
        exists|index: Seq<char>, length: Seq<char>, array_name: Seq<char>|
            uuid_shaped(index) && uuid_shaped(length) && uuid_shaped(array_name) && r@ == for_loop_expression(
                identifier@,
                array@,
                for_body@,
                index,
                length,
                array_name,
            ),
{
    let index = random_identifier();
    let length = random_identifier();
    let array_name = random_identifier();
    let r = for_loop_with_names(identifier, array, for_body, &index, &length, &array_name);
    r
}

} // verus!
