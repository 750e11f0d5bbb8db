use vstd::prelude::*;
use crate::model::{AstV, DatatypeV, SKind, TypeV};
use crate::errors::LangErrorV;
use crate::semantics::{
    Env, IncludesV, LoadedV, Outcome, eval, eval_op, eval_list, eval_args, eval_loop, eval_call, eval_logical,
    eval_combine, eval_binding, eval_index, eval_length, eval_range, eval_field, eval_new_struct, create_fields,
    eval_print, eval_include, eval_unary, include_get, is_combining, is_binding,
};

verus! {

// The budget of steps only cuts off evaluations that would run longer: an
// evaluation that ends within a budget ends the same way within any larger
// one. `StepLimitReached` comes only from an exhausted budget, and every
// error of a part of an expression is the error of the whole.

/// The evaluation ended without running out of steps.
pub open spec fn finished(o: Outcome) -> bool {
    o.result != Err::<DatatypeV, LangErrorV>(LangErrorV::StepLimitReached)
}

proof fn same_eval(a: AstV, env: Env, inc: IncludesV, f1: nat, f2: nat)
    requires
        f1 <= f2,
        finished(eval(a, env, inc, f1)),
    ensures
        eval(a, env, inc, f2) == eval(a, env, inc, f1),
    decreases f1, 1nat, 0nat,
{
    let g1 = (f1 - 1) as nat;
    let g2 = (f2 - 1) as nat;
    match a {
        AstV::Op(k, args) => same_op(k, args, env, inc, f1, f2),
        AstV::ExpressionList(list) => same_list(list, env, inc, g1, g2, DatatypeV::Nothing),
        AstV::Conditional(c, t, e) => {
            let oc = eval(*c, env, inc, g1);
            if finished(oc) {
                same_eval(*c, env, inc, g1, g2);
                if finished(eval(*t, oc.env, inc, g1)) {
                    same_eval(*t, oc.env, inc, g1, g2);
                }
                match e {
                    Some(x) => if finished(eval(*x, oc.env, inc, g1)) {
                        same_eval(*x, oc.env, inc, g1, g2);
                    },
                    None => {},
                }
            }
        },
        _ => {},
    }
}

proof fn same_op(k: SKind, args: Seq<AstV>, env: Env, inc: IncludesV, f1: nat, f2: nat)
    requires
        f1 <= f2,
        finished(eval_op(k, args, env, inc, f1)),
    ensures
        eval_op(k, args, env, inc, f2) == eval_op(k, args, env, inc, f1),
    decreases f1, 0nat, 0nat,
{
    let g1 = (f1 - 1) as nat;
    let g2 = (f2 - 1) as nat;
    let a = args[0];
    let b = args[1];
    if is_combining(k) {
        same_combine(k, a, b, env, inc, g1, g2);
    } else if k == SKind::LogicalAnd || k == SKind::LogicalOr {
        same_logical(k, a, b, env, inc, g1, g2);
    } else if is_binding(k) {
        same_binding(a, b, env, inc, g1, g2);
    } else {
        match k {
            SKind::Loop => same_loop(a, b, env, inc, g1, g2, DatatypeV::Nothing),
            SKind::AccessArray => same_index(a, b, env, inc, g1, g2),
            SKind::GetArrayLength => same_length(a, env, inc, g1, g2),
            SKind::Range => same_range(a, b, env, inc, g1, g2),
            SKind::StructDeclaration => {},
            SKind::AccessStructField => same_field(a, b, env, inc, g1, g2),
            SKind::CreateStruct => same_new_struct(a, b, env, inc, g1, g2),
            SKind::ExecuteFn => same_call(a, b, env, inc, g1, g2),
            SKind::Print => same_print(a, env, inc, g1, g2),
            SKind::Include => same_include(a, env, inc, g1, g2),
            _ => same_unary(k, a, env, inc, g1, g2),
        }
    }
}

proof fn same_list(list: Seq<AstV>, env: Env, inc: IncludesV, f1: nat, f2: nat, last: DatatypeV)
    requires
        f1 <= f2,
        finished(eval_list(list, env, inc, f1, last)),
    ensures
        eval_list(list, env, inc, f2, last) == eval_list(list, env, inc, f1, last),
    decreases f1, 2nat, list.len(),
{
    if list.len() > 0 {
        let o = eval(list[0], env, inc, f1);
        same_eval(list[0], env, inc, f1, f2);
        if let Ok(v) = o.result {
            same_list(list.drop_first(), o.env, inc, f1, f2, v);
        }
    }
}

proof fn same_args(list: Seq<AstV>, env: Env, inc: IncludesV, f1: nat, f2: nat)
    requires
        f1 <= f2,
        eval_args(list, env, inc, f1).0 != Err::<Seq<DatatypeV>, LangErrorV>(LangErrorV::StepLimitReached),
    ensures
        eval_args(list, env, inc, f2) == eval_args(list, env, inc, f1),
    decreases f1, 2nat, list.len(),
{
    if list.len() > 0 {
        let o = eval(list[0], env, inc, f1);
        same_eval(list[0], env, inc, f1, f2);
        if let Ok(v) = o.result {
            same_args(list.drop_first(), o.env, inc, f1, f2);
        }
    }
}

proof fn same_loop(c: AstV, body: AstV, env: Env, inc: IncludesV, f1: nat, f2: nat, last: DatatypeV)
    requires
        f1 <= f2,
        finished(eval_loop(c, body, env, inc, f1, last)),
    ensures
        eval_loop(c, body, env, inc, f2, last) == eval_loop(c, body, env, inc, f1, last),
    decreases f1, 2nat, 0nat,
{
    let oc = eval(c, env, inc, f1);
    same_eval(c, env, inc, f1, f2);
    if oc.result == Ok::<DatatypeV, LangErrorV>(DatatypeV::Bool(true)) {
        let ob = eval(body, oc.env, inc, f1);
        same_eval(body, oc.env, inc, f1, f2);
        if let Ok(v) = ob.result {
            same_loop(c, body, ob.env, inc, (f1 - 1) as nat, (f2 - 1) as nat, v);
        }
    }
}

proof fn same_call(callee: AstV, arguments: AstV, env: Env, inc: IncludesV, f1: nat, f2: nat)
    requires
        f1 <= f2,
        finished(eval_call(callee, arguments, env, inc, f1)),
    ensures
        eval_call(callee, arguments, env, inc, f2) == eval_call(callee, arguments, env, inc, f1),
    decreases f1, 3nat, 0nat,
{
    if let AstV::ExpressionList(exprs) = arguments {
        let (args, env1, p1) = eval_args(exprs, env, inc, f1);
        same_args(exprs, env, inc, f1, f2);
        if let Ok(vals) = args {
            let of = eval(callee, env1, inc, f1);
            same_eval(callee, env1, inc, f1, f2);
            if let Ok(DatatypeV::Function(params, body, ret)) = of.result {
                if let AstV::ExpressionList(pl) = *params {
                    if vals.len() == pl.len() {
                        if let Ok(env2) = crate::semantics::bind_params(pl, vals, env, of.env) {
                            if finished(eval(*body, env2, inc, f1)) {
                                same_eval(*body, env2, inc, f1, f2);
                            }
                        }
                    }
                }
            }
        }
    }
}

proof fn same_logical(k: SKind, lhs: AstV, rhs: AstV, env: Env, inc: IncludesV, f1: nat, f2: nat)
    requires
        f1 <= f2,
        finished(eval_logical(k, lhs, rhs, env, inc, f1)),
    ensures
        eval_logical(k, lhs, rhs, env, inc, f2) == eval_logical(k, lhs, rhs, env, inc, f1),
    decreases f1, 2nat, 0nat,
{
    let o1 = eval(lhs, env, inc, f1);
    same_eval(lhs, env, inc, f1, f2);
    if o1.result is Ok {
        if finished(eval(rhs, o1.env, inc, f1)) {
            same_eval(rhs, o1.env, inc, f1, f2);
        }
    }
}

proof fn same_combine(k: SKind, a: AstV, b: AstV, env: Env, inc: IncludesV, f1: nat, f2: nat)
    requires
        f1 <= f2,
        finished(eval_combine(k, a, b, env, inc, f1)),
    ensures
        eval_combine(k, a, b, env, inc, f2) == eval_combine(k, a, b, env, inc, f1),
    decreases f1, 2nat, 0nat,
{
    let ol = eval(a, env, inc, f1);
    same_eval(a, env, inc, f1, f2);
    if ol.result is Ok {
        same_eval(b, ol.env, inc, f1, f2);
    }
}

proof fn same_binding(a: AstV, b: AstV, env: Env, inc: IncludesV, f1: nat, f2: nat)
    requires
        f1 <= f2,
        finished(eval_binding(a, b, env, inc, f1)),
    ensures
        eval_binding(a, b, env, inc, f2) == eval_binding(a, b, env, inc, f1),
    decreases f1, 2nat, 0nat,
{
    if a is ValueIdentifier {
        same_eval(b, env, inc, f1, f2);
    }
}

proof fn same_index(a: AstV, b: AstV, env: Env, inc: IncludesV, f1: nat, f2: nat)
    requires
        f1 <= f2,
        finished(eval_index(a, b, env, inc, f1)),
    ensures
        eval_index(a, b, env, inc, f2) == eval_index(a, b, env, inc, f1),
    decreases f1, 2nat, 0nat,
{
    let od = eval(a, env, inc, f1);
    same_eval(a, env, inc, f1, f2);
    if od.result matches Ok(DatatypeV::Array(_, _)) {
        same_eval(b, od.env, inc, f1, f2);
    }
}

proof fn same_length(a: AstV, env: Env, inc: IncludesV, f1: nat, f2: nat)
    requires
        f1 <= f2,
        finished(eval_length(a, env, inc, f1)),
    ensures
        eval_length(a, env, inc, f2) == eval_length(a, env, inc, f1),
    decreases f1, 2nat, 0nat,
{
    same_eval(a, env, inc, f1, f2);
}

proof fn same_range(a: AstV, b: AstV, env: Env, inc: IncludesV, f1: nat, f2: nat)
    requires
        f1 <= f2,
        finished(eval_range(a, b, env, inc, f1)),
    ensures
        eval_range(a, b, env, inc, f2) == eval_range(a, b, env, inc, f1),
    decreases f1, 2nat, 0nat,
{
    let os = eval(a, env, inc, f1);
    same_eval(a, env, inc, f1, f2);
    if os.result matches Ok(DatatypeV::Number(_)) {
        same_eval(b, os.env, inc, f1, f2);
    }
}

proof fn same_field(a: AstV, b: AstV, env: Env, inc: IncludesV, f1: nat, f2: nat)
    requires
        f1 <= f2,
        finished(eval_field(a, b, env, inc, f1)),
    ensures
        eval_field(a, b, env, inc, f2) == eval_field(a, b, env, inc, f1),
    decreases f1, 2nat, 0nat,
{
    same_eval(a, env, inc, f1, f2);
}

proof fn same_new_struct(a: AstV, b: AstV, env: Env, inc: IncludesV, f1: nat, f2: nat)
    requires
        f1 <= f2,
        finished(eval_new_struct(a, b, env, inc, f1)),
    ensures
        eval_new_struct(a, b, env, inc, f2) == eval_new_struct(a, b, env, inc, f1),
    decreases f1, 3nat, 0nat,
{
    let od = eval(a, env, inc, f1);
    same_eval(a, env, inc, f1, f2);
    if let Ok(DatatypeV::StructType(_, TypeV::Struct(types))) = od.result {
        if let AstV::ExpressionList(list) = b {
            same_create_fields(list, types, od.env, inc, f1, f2, Seq::empty());
        }
    }
}

proof fn same_create_fields(
    list: Seq<AstV>,
    types: Seq<(Seq<char>, TypeV)>,
    env: Env,
    inc: IncludesV,
    f1: nat,
    f2: nat,
    acc: Seq<(Seq<char>, DatatypeV)>,
)
    requires
        f1 <= f2,
        finished(create_fields(list, types, env, inc, f1, acc)),
    ensures
        create_fields(list, types, env, inc, f2, acc) == create_fields(list, types, env, inc, f1, acc),
    decreases f1, 2nat, list.len(),
{
    if list.len() > 0 {
        if let AstV::Op(k, args) = list[0] {
            if k == SKind::FieldAssignment {
                if let AstV::ValueIdentifier(name) = args[0] {
                    if crate::fields::field_get(types, name) is Some {
                        let o = eval(args[1], env, inc, f1);
                        same_eval(args[1], env, inc, f1, f2);
                        if let Ok(v) = o.result {
                            let acc2 = crate::fields::field_put(acc, name, v);
                            if finished(create_fields(list.drop_first(), types, o.env, inc, f1, acc2)) {
                                same_create_fields(list.drop_first(), types, o.env, inc, f1, f2, acc2);
                            }
                        }
                    }
                }
            }
        }
    }
}

proof fn same_print(a: AstV, env: Env, inc: IncludesV, f1: nat, f2: nat)
    requires
        f1 <= f2,
        finished(eval_print(a, env, inc, f1)),
    ensures
        eval_print(a, env, inc, f2) == eval_print(a, env, inc, f1),
    decreases f1, 2nat, 0nat,
{
    same_eval(a, env, inc, f1, f2);
}

proof fn same_include(a: AstV, env: Env, inc: IncludesV, f1: nat, f2: nat)
    requires
        f1 <= f2,
        finished(eval_include(a, env, inc, f1)),
    ensures
        eval_include(a, env, inc, f2) == eval_include(a, env, inc, f1),
    decreases f1, 2nat, 0nat,
{
    let o = eval(a, env, inc, f1);
    same_eval(a, env, inc, f1, f2);
    if let Ok(DatatypeV::String(name)) = o.result {
        if let Some(LoadedV::Program(program)) = include_get(inc, name) {
            same_eval(program, o.env, inc, f1, f2);
        }
    }
}

proof fn same_unary(k: SKind, a: AstV, env: Env, inc: IncludesV, f1: nat, f2: nat)
    requires
        f1 <= f2,
        finished(eval_unary(k, a, env, inc, f1)),
    ensures
        eval_unary(k, a, env, inc, f2) == eval_unary(k, a, env, inc, f1),
    decreases f1, 2nat, 0nat,
{
    same_eval(a, env, inc, f1, f2);
}

/// An evaluation that ends without running out of steps ends the same way,
/// with the same result, variables and printing, under any larger budget:
/// the budget only cuts off programs that would run longer.
pub proof fn law_budget_only_cuts_off(a: AstV, env: Env, inc: IncludesV, f1: nat, f2: nat)
    requires
        f1 <= f2,
        finished(eval(a, env, inc, f1)),
    ensures
        eval(a, env, inc, f2) == eval(a, env, inc, f1),
{
    same_eval(a, env, inc, f1, f2);
}

} // verus!
