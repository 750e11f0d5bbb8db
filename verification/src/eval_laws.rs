use vstd::prelude::*;
use crate::model::{AstV, DatatypeV, TypeV, SKind};
use crate::semantics::{
    Env, IncludesV, Outcome, outcome, then, eval, eval_op, eval_index, eval_binding, eval_list, eval_args, eval_call, bind_params, param_expected_type,
};
use crate::errors::LangErrorV;
use crate::fields::{field_get, field_put, lemma_field_put_get};
use crate::values::{Comparison, value_compare};
use crate::value_types::type_of;
use crate::text::{seq_lt, lemma_seq_lt_total, lemma_seq_lt_asymmetric, lemma_seq_lt_irreflexive};

verus! {

// Laws of evaluation over its parts. An operator's operands are evaluated
// with one step less of the budget than the operator itself; by
// `budget::law_budget_only_cuts_off`, an operand that finishes within any
// smaller budget gives the same outcome there.

broadcast use crate::fields::lemma_seq_add_empty;

/// `array[index]`: with the array and then the index evaluated, the element
/// at a non-negative index within the array; `OutOfBoundsArrayAccess` past
/// its end; `NegativeIndex` below zero.
pub proof fn law_array_index(a: AstV, i: AstV, env: Env, inc: IncludesV, fuel: nat)
    requires
        fuel > 0,
        eval(a, env, inc, (fuel - 1) as nat).result matches Ok(DatatypeV::Array(_, _)),
        eval(i, eval(a, env, inc, (fuel - 1) as nat).env, inc, (fuel - 1) as nat).result matches Ok(DatatypeV::Number(_)),
    ensures
        ({
            let f = (fuel - 1) as nat;
            let vs = eval(a, env, inc, f).result->Ok_0->Array_0;
            let k = eval(i, eval(a, env, inc, f).env, inc, f).result->Ok_0->Number_0;
            let r = eval(AstV::Op(SKind::AccessArray, seq![a, i]), env, inc, fuel).result;
            &&& 0 <= k < vs.len() ==> r == Ok::<DatatypeV, LangErrorV>(vs[k as int])
            &&& k >= vs.len() ==> r == Err::<DatatypeV, LangErrorV>(LangErrorV::OutOfBoundsArrayAccess)
            &&& k < 0 ==> r == Err::<DatatypeV, LangErrorV>(LangErrorV::NegativeIndex(k))
        }),
{
    let f = (fuel - 1) as nat;
    let args = seq![a, i];
    assert(args[0] == a && args[1] == i);
    assert(eval(AstV::Op(SKind::AccessArray, args), env, inc, fuel) == eval_op(SKind::AccessArray, args, env, inc, fuel));
    assert(eval_op(SKind::AccessArray, args, env, inc, fuel) == eval_index(a, i, env, inc, f));
}

/// `name := value`: when the value evaluates to `v`, the result is `v` and
/// only `name` is rebound, to `v`; every other name keeps its value, and
/// whatever evaluating the value bound is dropped.
pub proof fn law_assignment_rebinds_only_the_name(id: Seq<char>, rhs: AstV, env: Env, inc: IncludesV, fuel: nat, other: Seq<char>)
    requires
        fuel > 0,
        eval(rhs, env, inc, (fuel - 1) as nat).result is Ok,
        other != id,
    ensures
        ({
            let v = eval(rhs, env, inc, (fuel - 1) as nat).result->Ok_0;
            let o = eval(AstV::Op(SKind::Assignment, seq![AstV::ValueIdentifier(id), rhs]), env, inc, fuel);
            &&& o.result == Ok::<DatatypeV, LangErrorV>(v)
            &&& o.env == field_put(env, id, v)
            &&& field_get(o.env, id) == Some(v)
            &&& field_get(o.env, other) == field_get(env, other)
        }),
{
    let v = eval(rhs, env, inc, (fuel - 1) as nat).result->Ok_0;
    let args = seq![AstV::ValueIdentifier(id), rhs];
    assert(args[0] == AstV::ValueIdentifier(id) && args[1] == rhs);
    assert(eval(AstV::Op(SKind::Assignment, args), env, inc, fuel) == eval_op(SKind::Assignment, args, env, inc, fuel));
    assert(eval_op(SKind::Assignment, args, env, inc, fuel) == eval_binding(AstV::ValueIdentifier(id), rhs, env, inc, (fuel - 1) as nat));
    lemma_field_put_get(env, id, v, id);
    lemma_field_put_get(env, id, v, other);
}

/// An empty list of expressions gives nothing and changes nothing.
pub proof fn law_empty_list(env: Env, inc: IncludesV, fuel: nat)
    requires
        fuel > 0,
    ensures
        eval(AstV::ExpressionList(Seq::empty()), env, inc, fuel) == outcome(Ok(DatatypeV::Nothing), env, Seq::empty()),
{
    assert(eval(AstV::ExpressionList(Seq::empty()), env, inc, fuel) == eval_list(Seq::empty(), env, inc, (fuel - 1) as nat, DatatypeV::Nothing));
}

/// A list stops at its first error: when its first expression fails, the
/// list's outcome is that failure and the rest is not evaluated.
pub proof fn law_list_stops_at_first_error(es: Seq<AstV>, env: Env, inc: IncludesV, f: nat, last: DatatypeV)
    requires
        es.len() > 0,
        eval(es[0], env, inc, f).result is Err,
    ensures
        eval_list(es, env, inc, f, last) == eval(es[0], env, inc, f),
{
}

/// A list's outcome is that of its last expression, run after the ones
/// before it once they have all succeeded: the list's value is its last
/// expression's value.
pub proof fn law_list_value_is_last(es: Seq<AstV>, env: Env, inc: IncludesV, f: nat, last: DatatypeV)
    requires
        es.len() > 0,
        eval_list(es.drop_last(), env, inc, f, last).result is Ok,
    ensures
        ({
            let p = eval_list(es.drop_last(), env, inc, f, last);
            eval_list(es, env, inc, f, last) == then(p, eval(es.last(), p.env, inc, f))
        }),
    decreases es.len(),
{
    let p = eval_list(es.drop_last(), env, inc, f, last);
    let o0 = eval(es[0], env, inc, f);
    if es.len() == 1 {
        assert(es.drop_last() =~= Seq::<AstV>::empty());
        assert(es.drop_first() =~= Seq::<AstV>::empty());
        assert(p == outcome(Ok(last), env, Seq::empty()));
        assert(Seq::<crate::semantics::PrintV>::empty() + o0.printed =~= o0.printed);
    } else {
        let rest = es.drop_first();
        assert(es.drop_last()[0] == es[0]);
        assert(es.drop_last().drop_first() =~= rest.drop_last());
        let v = o0.result->Ok_0;
        law_list_value_is_last(rest, o0.env, inc, f, v);
        let q = eval_list(rest.drop_last(), o0.env, inc, f, v);
        let ol = eval(es.last(), q.env, inc, f);
        assert(rest.last() == es.last());
        assert(p == then(o0, q));
        assert(o0.printed + q.printed + ol.printed =~= o0.printed + (q.printed + ol.printed));
    }
}

/// A call leaves the caller's variables as they were, whatever the function
/// and its arguments do and whatever the call gives.
pub proof fn law_call_leaves_variables(callee: AstV, arguments: AstV, env: Env, inc: IncludesV, fuel: nat)
    ensures
        eval(AstV::Op(SKind::ExecuteFn, seq![callee, arguments]), env, inc, fuel).env == env,
{
    let args = seq![callee, arguments];
    assert(args[0] == callee && args[1] == arguments);
    if fuel > 0 {
        assert(eval(AstV::Op(SKind::ExecuteFn, args), env, inc, fuel) == eval_op(SKind::ExecuteFn, args, env, inc, fuel));
        assert(eval_op(SKind::ExecuteFn, args, env, inc, fuel) == eval_call(callee, arguments, env, inc, (fuel - 1) as nat));
    }
}

/// A call with more or fewer arguments than the function has parameters
/// fails with `ParameterLengthMismatch` before the body runs: it prints only
/// what evaluating the arguments and the function printed.
pub proof fn law_parameter_count_mismatch(callee: AstV, exprs: Seq<AstV>, env: Env, inc: IncludesV, f: nat)
    requires
        eval_args(exprs, env, inc, f).0 is Ok,
        eval(callee, eval_args(exprs, env, inc, f).1, inc, f).result matches Ok(DatatypeV::Function(params, _, _))
            && *params matches AstV::ExpressionList(pl) && pl.len() != eval_args(exprs, env, inc, f).0->Ok_0.len(),
    ensures
        ({
            let a = eval_args(exprs, env, inc, f);
            let of = eval(callee, a.1, inc, f);
            eval_call(callee, AstV::ExpressionList(exprs), env, inc, f) == outcome(
                Err(LangErrorV::ParameterLengthMismatch),
                env,
                a.2 + of.printed,
            )
        }),
{
}

/// Whether a parameter `name: Type` starts with a name.
pub open spec fn names_parameter(p: AstV) -> bool {
    match p {
        AstV::Op(_, ops) => ops.len() > 0 && ops[0] is ValueIdentifier,
        _ => false,
    }
}

/// The arguments of a call are checked against the parameters' declared
/// types in order: at the first argument whose type differs from its
/// parameter's, binding fails with a type error naming both types.
pub proof fn law_first_argument_type_mismatch(params: Seq<AstV>, args: Seq<DatatypeV>, types_env: Env, env: Env, k: int)
    requires
        0 <= k < params.len(),
        k < args.len(),
        forall|i: int| 0 <= i <= k ==> #[trigger] param_expected_type(params[i], types_env) is Ok,
        forall|i: int| 0 <= i < k ==> names_parameter(#[trigger] params[i]),
        forall|i: int| 0 <= i < k ==> param_expected_type(params[i], types_env)->Ok_0 == type_of(#[trigger] args[i]),
        param_expected_type(params[k], types_env)->Ok_0 != type_of(args[k]),
    ensures
        bind_params(params, args, types_env, env) == Err::<Env, LangErrorV>(
            LangErrorV::TypeError(param_expected_type(params[k], types_env)->Ok_0, type_of(args[k])),
        ),
    decreases k,
{
    if k > 0 {
        let id = params[0]->Op_1[0]->ValueIdentifier_0;
        let p2 = params.drop_first();
        let a2 = args.drop_first();
        assert(param_expected_type(params[0], types_env) is Ok);
        assert(param_expected_type(params[0], types_env)->Ok_0 == type_of(args[0]));
        assert forall|i: int| 0 <= i <= k - 1 implies #[trigger] param_expected_type(p2[i], types_env) is Ok by {
            assert(p2[i] == params[i + 1]);
        }
        assert forall|i: int| 0 <= i < k - 1 implies names_parameter(#[trigger] p2[i]) by {
            assert(p2[i] == params[i + 1]);
        }
        assert forall|i: int| 0 <= i < k - 1 implies param_expected_type(p2[i], types_env)->Ok_0 == type_of(#[trigger] a2[i]) by {
            assert(p2[i] == params[i + 1]);
            assert(a2[i] == args[i + 1]);
        }
        assert(p2[k - 1] == params[k]);
        assert(a2[k - 1] == args[k]);
        law_first_argument_type_mismatch(p2, a2, types_env, field_put(env, id, args[0]), k - 1);
    }
}

/// Numbers compare by value, strings in dictionary order, and `false` comes
/// before `true`; a number does not compare with a value of another kind.
pub proof fn law_scalar_comparison(a: i32, b: i32, s: Seq<char>, t: Seq<char>, x: bool, y: bool, d: DatatypeV)
    requires
        !(d is Number),
    ensures
        value_compare(DatatypeV::Number(a), DatatypeV::Number(b)) == Some(
            if a < b { Comparison::Less } else if a > b { Comparison::Greater } else { Comparison::Equal },
        ),
        value_compare(DatatypeV::String(s), DatatypeV::String(t)) == Some(
            if seq_lt(s, t) { Comparison::Less } else if s == t { Comparison::Equal } else { Comparison::Greater },
        ),
        value_compare(DatatypeV::Bool(x), DatatypeV::Bool(y)) == Some(
            if x == y { Comparison::Equal } else if y { Comparison::Less } else { Comparison::Greater },
        ),
        value_compare(DatatypeV::Number(a), d) is None,
{
    lemma_seq_lt_total(s, t);
    lemma_seq_lt_asymmetric(s, t);
    lemma_seq_lt_irreflexive(s);
}

/// Two arrays compare equal when they have one element type and the same
/// elements, and the first comes before the second otherwise: arrays never
/// compare greater, and always compare.
pub proof fn law_array_comparison(v1: Seq<DatatypeV>, t1: TypeV, v2: Seq<DatatypeV>, t2: TypeV)
    ensures
        value_compare(DatatypeV::Array(v1, t1), DatatypeV::Array(v2, t2)) == Some(
            if t1 == t2 && v1 == v2 { Comparison::Equal } else { Comparison::Less },
        ),
{
}

/// `instance.field`: the value of the field when the instance is a struct
/// that has it; `StructFieldDoesntExist` when it has not;
/// `IdentifierDoesntExist` when no name follows the dot;
/// `TriedToAccessNonStruct` on another value; an error of the instance is
/// the error of the whole.
pub proof fn law_struct_field_access(a: AstV, b: AstV, env: Env, inc: IncludesV, fuel: nat)
    requires
        fuel > 0,
    ensures
        ({
            let od = eval(a, env, inc, (fuel - 1) as nat);
            let r = eval(AstV::Op(SKind::AccessStructField, seq![a, b]), env, inc, fuel).result;
            r == match od.result {
                Err(e) => Err(e),
                Ok(DatatypeV::Struct(m)) => match b {
                    AstV::ValueIdentifier(name) => match field_get(m, name) {
                        Some(v) => Ok::<DatatypeV, LangErrorV>(v),
                        None => Err(LangErrorV::StructFieldDoesntExist),
                    },
                    _ => Err(LangErrorV::IdentifierDoesntExist),
                },
                Ok(_) => Err(LangErrorV::TriedToAccessNonStruct),
            }
        }),
{
    let args = seq![a, b];
    assert(args[0] == a && args[1] == b);
    assert(eval(AstV::Op(SKind::AccessStructField, args), env, inc, fuel) == eval_op(SKind::AccessStructField, args, env, inc, fuel));
    assert(eval_op(SKind::AccessStructField, args, env, inc, fuel) == crate::semantics::eval_field(a, b, env, inc, (fuel - 1) as nat));
}

/// Calling `main()` when `main` is bound to a function of no parameters
/// runs its body in the current variables: its value when it has the
/// declared return type, `ReturnTypeDoesNotMatchReturnValue` otherwise; the
/// caller's variables stay as they were, and what the body printed is printed.
pub proof fn law_main_call(env: Env, inc: IncludesV, fuel: nat, body: AstV, ret: TypeV, t: TypeV)
    requires
        fuel >= 2,
        field_get(env, "main"@) == Some(DatatypeV::Function(Box::new(AstV::ExpressionList(Seq::empty())), Box::new(body), ret)),
        eval(body, env, inc, (fuel - 1) as nat).result is Ok,
        crate::semantics::resolve_type(ret, env) == Ok::<TypeV, LangErrorV>(t),
    ensures
        ({
            let ob = eval(body, env, inc, (fuel - 1) as nat);
            let v = ob.result->Ok_0;
            eval(crate::interpreter::main_call(), env, inc, fuel) == outcome(
                if type_of(v) == t { Ok(v) } else { Err(LangErrorV::ReturnTypeDoesNotMatchReturnValue) },
                env,
                ob.printed,
            )
        }),
{
    let f = (fuel - 1) as nat;
    let callee = AstV::ValueIdentifier("main"@);
    let arguments = AstV::ExpressionList(Seq::<AstV>::empty());
    let args = seq![callee, arguments];
    assert(args[0] == callee && args[1] == arguments);
    assert(eval(AstV::Op(SKind::ExecuteFn, args), env, inc, fuel) == eval_op(SKind::ExecuteFn, args, env, inc, fuel));
    assert(eval_op(SKind::ExecuteFn, args, env, inc, fuel) == eval_call(callee, arguments, env, inc, f));
    let e = Seq::<AstV>::empty();
    assert(eval_args(e, env, inc, f) == (Ok::<Seq<DatatypeV>, LangErrorV>(Seq::empty()), env, Seq::<crate::semantics::PrintV>::empty()));
    assert(eval(callee, env, inc, f).result == Ok::<DatatypeV, LangErrorV>(field_get(env, "main"@)->Some_0));
    assert(bind_params(e, Seq::empty(), env, env) == Ok::<Env, LangErrorV>(env));
    let ob = eval(body, env, inc, f);
    assert(Seq::<crate::semantics::PrintV>::empty() + Seq::<crate::semantics::PrintV>::empty() + ob.printed =~= ob.printed);
}

/// `new Name { field: value ... }`: once `Name` evaluates to a struct type,
/// the fields are read in the order written, from an empty struct, by the
/// field rule: a name the type does not declare gives
/// `IdentifierDoesntExist`, a value of another type than declared gives a
/// type error naming both, and otherwise the value is stored under the name.
pub proof fn law_struct_creation(a: AstV, fields: Seq<AstV>, env: Env, inc: IncludesV, fuel: nat)
    requires
        fuel > 0,
        eval(a, env, inc, (fuel - 1) as nat).result matches Ok(DatatypeV::StructType(_, TypeV::Struct(_))),
    ensures
        ({
            let f = (fuel - 1) as nat;
            let od = eval(a, env, inc, f);
            let types = od.result->Ok_0->StructType_1->Struct_0;
            eval(AstV::Op(SKind::CreateStruct, seq![a, AstV::ExpressionList(fields)]), env, inc, fuel)
                == then(od, crate::semantics::create_fields(fields, types, od.env, inc, f, Seq::empty()))
        }),
{
    let b = AstV::ExpressionList(fields);
    let args = seq![a, b];
    assert(args[0] == a && args[1] == b);
    assert(eval(AstV::Op(SKind::CreateStruct, args), env, inc, fuel) == eval_op(SKind::CreateStruct, args, env, inc, fuel));
    assert(eval_op(SKind::CreateStruct, args, env, inc, fuel) == crate::semantics::eval_new_struct(a, b, env, inc, (fuel - 1) as nat));
}

/// One field of `new Name { ... }`: a name the struct type does not declare
/// gives `IdentifierDoesntExist`; a value of another type than declared
/// gives a type error naming both; a value of the declared type is stored
/// under the name and the next fields are read.
pub proof fn law_struct_field_rule(
    name: Seq<char>,
    e: AstV,
    rest: Seq<AstV>,
    types: Seq<(Seq<char>, TypeV)>,
    env: Env,
    inc: IncludesV,
    f: nat,
    acc: Seq<(Seq<char>, DatatypeV)>,
)
    requires
        eval(e, env, inc, f).result is Ok,
    ensures
        ({
            let list = seq![AstV::Op(SKind::FieldAssignment, seq![AstV::ValueIdentifier(name), e])] + rest;
            let o = eval(e, env, inc, f);
            let v = o.result->Ok_0;
            crate::semantics::create_fields(list, types, env, inc, f, acc) == match field_get(types, name) {
                None => outcome(Err(LangErrorV::IdentifierDoesntExist), env, Seq::empty()),
                Some(t) => if t == type_of(v) {
                    then(o, crate::semantics::create_fields(rest, types, o.env, inc, f, field_put(acc, name, v)))
                } else {
                    Outcome { result: Err(LangErrorV::TypeError(t, type_of(v))), env: o.env, printed: o.printed }
                },
            }
        }),
{
    let list = seq![AstV::Op(SKind::FieldAssignment, seq![AstV::ValueIdentifier(name), e])] + rest;
    assert(list[0] == AstV::Op(SKind::FieldAssignment, seq![AstV::ValueIdentifier(name), e]));
    assert(list.drop_first() =~= rest);
}

} // verus!
