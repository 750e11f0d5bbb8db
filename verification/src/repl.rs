use vstd::prelude::*;
use vstd::string::StrSliceExecFns;
use std::rc::Rc;
use crate::ast::{Ast, SExpression, Datatype, TypeInfo, LangError, LangResult};
use crate::model::{AstV, DatatypeV, TypeV, SKind, view_asts, view_dt, lemma_view_asts};
use crate::semantics::{Env, eval};
use crate::fields::{field_put, put_field};
use crate::interpreter::{Context, performs, STEP_BUDGET};
use crate::typecheck::{TypeStore, view_store, check};
use crate::mutability::{MutabilityMap, MutabilityError, view_mut_map, mutability_check};

use crate::deep::lemma_view_asts_push;

verus! {

pub open spec fn id_v(name: Seq<char>) -> AstV {
    AstV::ValueIdentifier(name)
}

pub open spec fn string_param(name: Seq<char>) -> AstV {
    AstV::Op(SKind::TypeAssignment, seq![id_v(name), AstV::Type(TypeV::String)])
}

/// `print(to_print: String) -> String`, which prints its argument.
pub open spec fn print_function() -> DatatypeV {
    DatatypeV::Function(
        Box::new(AstV::ExpressionList(seq![string_param("to_print"@)])),
        Box::new(AstV::ExpressionList(seq![AstV::Op(SKind::Print, seq![id_v("to_print"@)])])),
        TypeV::String,
    )
}

/// `println(x: String) -> String`, which prints its argument and a newline
/// through `print`.
pub open spec fn println_function() -> DatatypeV {
    DatatypeV::Function(
        Box::new(AstV::ExpressionList(seq![string_param("x"@)])),
        Box::new(
            AstV::ExpressionList(
                seq![
                    AstV::Op(
                        SKind::VariableDeclaration,
                        seq![
                            id_v("str"@),
                            AstV::Op(SKind::Add, seq![id_v("x"@), AstV::Literal(DatatypeV::String("\n"@))]),
                        ],
                    ),
                    AstV::Op(SKind::ExecuteFn, seq![id_v("print"@), AstV::ExpressionList(seq![id_v("str"@)])]),
                ],
            ),
        ),
        TypeV::String,
    )
}

/// The variables with the standard functions added.
pub open spec fn with_std_functions(env: Env) -> Env {
    field_put(field_put(env, "print"@, print_function()), "println"@, println_function())
}

fn ident(name: &str) -> (a: Ast)
    ensures
        a@ == id_v(name@),
{
    Ast::ValueIdentifier(String::from_str(name))
}

fn string_parameter(name: &str) -> (a: Ast)
    ensures
        a@ == string_param(name@),
{
    let ty = Ast::Type(TypeInfo::String);
    assert(ty@ == AstV::Type(TypeV::String));
    let id = ident(name);
    let se = SExpression::TypeAssignment { identifier: Box::new(id), type_info: Box::new(ty) };
    assert(crate::model::view_sexpr(se) == string_param(name@));
    Ast::SExpr(se)
}

fn list1(a: Ast) -> (r: Ast)
    ensures
        r@ == AstV::ExpressionList(seq![a@]),
{
    let mut v: Vec<Ast> = Vec::new();
    assert(view_asts(v@) =~= Seq::<AstV>::empty());
    proof {
        lemma_view_asts_push(v@, a);
    }
    v.push(a);
    assert(view_asts(v@) =~= seq![a@]);
    Ast::ExpressionList(v)
}

fn list2(a: Ast, b: Ast) -> (r: Ast)
    ensures
        r@ == AstV::ExpressionList(seq![a@, b@]),
{
    let mut v: Vec<Ast> = Vec::new();
    assert(view_asts(v@) =~= Seq::<AstV>::empty());
    proof {
        lemma_view_asts_push(v@, a);
    }
    v.push(a);
    proof {
        lemma_view_asts_push(v@, b);
    }
    v.push(b);
    assert(view_asts(v@) =~= seq![a@, b@]);
    Ast::ExpressionList(v)
}

/// Binds a value to a name among the variables.
fn bind(ctx: &mut Context, name: &str, value: Datatype)
    ensures
        final(ctx).env() == field_put(old(ctx).env(), name@, value@),
        final(ctx).output@ == old(ctx).output@,
        final(ctx).includes@ == old(ctx).includes@,
        old(ctx).wf() ==> final(ctx).wf(),
{
    proof {
        if ctx.wf() {
            crate::fields::lemma_field_put_sorted(ctx.env(), name@, value@);
        }
    }
    let key = String::from_str(name);
    let shared = Rc::new(value);
    let ghost s0 = ctx.variables@;
    let ghost gk = key;
    let ghost gs = shared;
    put_field(&mut ctx.variables, key, shared);
    proof {
        crate::interpreter::lemma_env_put(s0, gk, gs);
    }
}

/// Adds `print` to the variables.
pub fn add_print_function(ctx: &mut Context)
    ensures
        final(ctx).env() == field_put(old(ctx).env(), "print"@, print_function()),
        final(ctx).output@ == old(ctx).output@,
        final(ctx).includes@ == old(ctx).includes@,
        old(ctx).wf() ==> final(ctx).wf(),
{
    let pse = SExpression::Print(Box::new(ident("to_print")));
    assert(crate::model::view_sexpr(pse) == AstV::Op(SKind::Print, seq![id_v("to_print"@)]));
    let printing = Ast::SExpr(pse);
    let body = list1(printing);
    let params = list1(string_parameter("to_print"));
    let ghost bv = body@;
    let ghost pv = params@;
    let f = Datatype::Function { parameters: Box::new(params), body: Box::new(body), return_type: TypeInfo::String };
    assert(view_dt(f) == DatatypeV::Function(Box::new(pv), Box::new(bv), TypeV::String));
    assert(f@ == print_function());
    bind(ctx, "print", f);
}

/// Adds `println` to the variables.
pub fn add_println_function(ctx: &mut Context)
    ensures
        final(ctx).env() == field_put(old(ctx).env(), "println"@, println_function()),
        final(ctx).output@ == old(ctx).output@,
        final(ctx).includes@ == old(ctx).includes@,
        old(ctx).wf() ==> final(ctx).wf(),
{
    let newline = Datatype::String(String::from_str("\n"));
    assert(newline@ == DatatypeV::String("\n"@));
    let lit = Ast::Literal(newline);
    assert(lit@ == AstV::Literal(DatatypeV::String("\n"@)));
    let sum_se = SExpression::Add(Box::new(ident("x")), Box::new(lit));
    assert(crate::model::view_sexpr(sum_se) == AstV::Op(SKind::Add, seq![id_v("x"@), AstV::Literal(DatatypeV::String("\n"@))]));
    let sum = Ast::SExpr(sum_se);
    let ghost sv = sum@;
    let decl_se = SExpression::VariableDeclaration { identifier: Box::new(ident("str")), ast: Box::new(sum) };
    assert(crate::model::view_sexpr(decl_se) == AstV::Op(SKind::VariableDeclaration, seq![id_v("str"@), sv]));
    let declare = Ast::SExpr(decl_se);
    let args = list1(ident("str"));
    let ghost av = args@;
    let call_se = SExpression::ExecuteFn { identifier: Box::new(ident("print")), parameters: Box::new(args) };
    assert(crate::model::view_sexpr(call_se) == AstV::Op(SKind::ExecuteFn, seq![id_v("print"@), av]));
    let call = Ast::SExpr(call_se);
    let body = list2(declare, call);
    let params = list1(string_parameter("x"));
    let ghost bv = body@;
    let ghost pv = params@;
    let f = Datatype::Function { parameters: Box::new(params), body: Box::new(body), return_type: TypeInfo::String };
    assert(view_dt(f) == DatatypeV::Function(Box::new(pv), Box::new(bv), TypeV::String));
    assert(f@ == println_function());
    bind(ctx, "println", f);
}

/// Adds the standard functions, `print` and `println`, to the variables.
pub fn add_std_functions(ctx: &mut Context)
    ensures
        final(ctx).env() == with_std_functions(old(ctx).env()),
        final(ctx).output@ == old(ctx).output@,
        final(ctx).includes@ == old(ctx).includes@,
        old(ctx).wf() ==> final(ctx).wf(),
{
    add_print_function(ctx);
    add_println_function(ctx);
}

/// A program that is a list of one expression stands for that expression.
pub open spec fn top_element(a: AstV) -> AstV {
    match a {
        AstV::ExpressionList(l) => if l.len() == 1 { l[0] } else { a },
        _ => a,
    }
}

/// The single expression of a one-element list, or the program itself. Each
/// line entered at the prompt is parsed as a list; taking its element lets
/// the mutability rules span lines.
pub fn replace_top_level_list_with_its_constituent_element(ast: &Ast) -> (r: &Ast)
    ensures
        r@ == top_element(ast@),
{
    match ast {
        Ast::ExpressionList(expressions) => {
            proof {
                lemma_view_asts(expressions@);
            }
            if expressions.len() == 1 {
                &expressions[0]
            } else {
                ast
            }
        }
        other => {
            proof {
                if let Ast::SExpr(s2) = other {
                    crate::model::lemma_view_sexpr_is_op(*s2);
                }
            }
            ast
        }
    }
}

/// Reads one line entered at the prompt: an empty line stands for nothing;
/// any other line is read as a program.
pub fn read(line: &str) -> (r: Option<Ast>)
    requires
        line@.len() <= 0x1000_0000_0000,
    ensures
        line@.len() == 0 ==> (r matches Some(a) && a@ == AstV::Literal(DatatypeV::Nothing)),
        line@.len() > 0 ==> exists|prefix: Seq<char>|
            crate::for_loop::uuid_shaped(prefix) && match crate::parser::parse_program(line@, prefix) {
                Some((a, _)) => r matches Some(b) && b@ == a,
                None => r is None,
            },
{
    if line.unicode_len() == 0 {
        let nothing = Datatype::Nothing;
        assert(view_dt(nothing) == DatatypeV::Nothing);
        return Some(Ast::Literal(nothing));
    }
    match crate::parser::program(line) {
        Some((ast, _)) => Some(ast),
        None => None,
    }
}

/// The state kept between the lines entered at the prompt.
pub struct ReplState {
    pub context: Context,
    pub mutability: MutabilityMap,
    pub types: TypeStore,
}

/// The state the prompt starts with: the standard functions, and no names
/// known to the mutability or type checks.
pub fn create_repl() -> (s: ReplState)
    ensures
        s.context.env() == with_std_functions(Seq::empty()),
        s.context.printed() == Seq::<crate::semantics::PrintV>::empty(),
        s.context.inc() == Seq::<(Seq<char>, crate::semantics::LoadedV)>::empty(),
        view_mut_map(s.mutability@) == Seq::<(Seq<char>, crate::mutability::Mutability)>::empty(),
        view_store(s.types@) == Seq::<(Seq<char>, crate::typecheck::MutabilityV)>::empty(),
        s.context.wf(),
{
    let mut context = Context::new();
    add_std_functions(&mut context);
    let mutability: MutabilityMap = Vec::new();
    let types: TypeStore = Vec::new();
    assert(view_mut_map(mutability@) =~= Seq::<(Seq<char>, crate::mutability::Mutability)>::empty());
    assert(view_store(types@) =~= Seq::<(Seq<char>, crate::typecheck::MutabilityV)>::empty());
    ReplState { context, mutability, types }
}

/// Whether the type checker handles every expression of `ast` it reaches,
/// given the names it knows.
pub fn type_checkable(ast: &Ast, types: &TypeStore) -> (b: bool)
    ensures
        b == check(top_element(ast@), view_store(types@)) is Some,
{
    let a = replace_top_level_list_with_its_constituent_element(ast);
    let mut scratch = crate::typecheck::copy_store(types);
    a.try_check_types(&mut scratch).is_some()
}

/// Runs one line entered at the prompt. A line that breaks the mutability
/// rules gives `MutabilityRulesViolated`, with the broken rule beside it; one
/// that fails the type check gives its type error; any other line runs.
pub fn evaluate_line(ast: &Ast, state: &mut ReplState) -> (r: (LangResult, Option<MutabilityError>))
    requires
        mutability_check(top_element(ast@), view_mut_map(old(state).mutability@)).0 is Ok ==> check(
            top_element(ast@),
            view_store(old(state).types@),
        ) is Some,
    ensures
        ({
            let a = top_element(ast@);
            let m = mutability_check(a, view_mut_map(old(state).mutability@));
            &&& old(state).context.wf() ==> final(state).context.wf()
            &&& view_mut_map(final(state).mutability@) == m.1
            &&& match m.0 {
                Err(e) => {
                    &&& r.0 == Err::<Rc<Datatype>, LangError>(LangError::MutabilityRulesViolated)
                    &&& r.1 == Some(e)
                    &&& final(state).types@ == old(state).types@
                    &&& final(state).context == old(state).context
                },
                Ok(_) => {
                    let c = check(a, view_store(old(state).types@))->Some_0;
                    &&& r.1 is None
                    &&& view_store(final(state).types@) == c.1
                    &&& match c.0 {
                        Err(te) => {
                            &&& r.0 is Err
                            &&& r.0->Err_0 matches LangError::NewTypeError(x) && x@ == te
                            &&& final(state).context == old(state).context
                        },
                        Ok(_) => performs(
                            old(state).context,
                            final(state).context,
                            eval(a, old(state).context.env(), old(state).context.inc(), STEP_BUDGET as nat),
                            r.0,
                        ),
                    }
                },
            }
        }),
{
    let a = replace_top_level_list_with_its_constituent_element(ast);
    match a.check_mutability_semantics(&mut state.mutability) {
        Err(e) => (Err(LangError::MutabilityRulesViolated), Some(e)),
        Ok(_) => match a.check_types(&mut state.types) {
            Ok(_) => (a.evaluate(&mut state.context), None),
            Err(type_error) => (Err(LangError::NewTypeError(type_error)), None),
        },
    }
}

} // verus!
