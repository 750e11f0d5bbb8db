use vstd::prelude::*;
use crate::model::{AstV, DatatypeV, SKind};
use crate::semantics::{
    Env, IncludesV, LoadedV, eval, eval_op, eval_list, eval_loop, eval_logical, eval_combine, eval_binding,
    eval_index, eval_length, eval_range, eval_field, eval_new_struct, create_fields, eval_print, eval_include,
    eval_unary, declare_struct, declared_fields, include_get, is_combining, is_binding,
};
use crate::fields::{sorted_keys, field_put, lemma_field_put_sorted};

verus! {

// The variables of a running program stay in ascending order of their names:
// each step either keeps the variables of a step before it or stores one
// value with `field_put`, which keeps the order.

proof fn keep_eval(a: AstV, env: Env, inc: IncludesV, fuel: nat)
    requires
        sorted_keys(env),
    ensures
        sorted_keys(eval(a, env, inc, fuel).env),
    decreases fuel, 1nat, 0nat,
{
    if fuel > 0 {
        let f = (fuel - 1) as nat;
        match a {
            AstV::Op(k, args) => keep_op(k, args, env, inc, fuel),
            AstV::ExpressionList(list) => keep_list(list, env, inc, f, DatatypeV::Nothing),
            AstV::Conditional(c, t, e) => {
                keep_eval(*c, env, inc, f);
                let oc = eval(*c, env, inc, f);
                keep_eval(*t, oc.env, inc, f);
                match e {
                    Some(x) => keep_eval(*x, oc.env, inc, f),
                    None => {},
                }
            },
            _ => {},
        }
    }
}

proof fn keep_op(k: SKind, args: Seq<AstV>, env: Env, inc: IncludesV, fuel: nat)
    requires
        sorted_keys(env),
    ensures
        sorted_keys(eval_op(k, args, env, inc, fuel).env),
    decreases fuel, 0nat, 0nat,
{
    if fuel > 0 {
        let f = (fuel - 1) as nat;
        let a = args[0];
        let b = args[1];
        if is_combining(k) {
            keep_combine(k, a, b, env, inc, f);
        } else if k == SKind::LogicalAnd || k == SKind::LogicalOr {
            keep_logical(k, a, b, env, inc, f);
        } else if is_binding(k) {
            keep_binding(a, b, env, inc, f);
        } else {
            match k {
                SKind::Loop => keep_loop(a, b, env, inc, f, DatatypeV::Nothing),
                SKind::AccessArray => keep_index(a, b, env, inc, f),
                SKind::GetArrayLength => keep_length(a, env, inc, f),
                SKind::Range => keep_range(a, b, env, inc, f),
                SKind::StructDeclaration => keep_declare(a, b, env),
                SKind::AccessStructField => keep_field(a, b, env, inc, f),
                SKind::CreateStruct => keep_new_struct(a, b, env, inc, f),
                SKind::ExecuteFn => {},
                SKind::Print => keep_print(a, env, inc, f),
                SKind::Include => keep_include(a, env, inc, f),
                _ => keep_unary(k, a, env, inc, f),
            }
        }
    }
}

proof fn keep_list(list: Seq<AstV>, env: Env, inc: IncludesV, f: nat, last: DatatypeV)
    requires
        sorted_keys(env),
    ensures
        sorted_keys(eval_list(list, env, inc, f, last).env),
    decreases f, 2nat, list.len(),
{
    if list.len() > 0 {
        keep_eval(list[0], env, inc, f);
        let o = eval(list[0], env, inc, f);
        if let Ok(v) = o.result {
            keep_list(list.drop_first(), o.env, inc, f, v);
        }
    }
}

proof fn keep_loop(c: AstV, body: AstV, env: Env, inc: IncludesV, f: nat, last: DatatypeV)
    requires
        sorted_keys(env),
    ensures
        sorted_keys(eval_loop(c, body, env, inc, f, last).env),
    decreases f, 2nat, 0nat,
{
    if f > 0 {
        keep_eval(c, env, inc, f);
        let oc = eval(c, env, inc, f);
        keep_eval(body, oc.env, inc, f);
        let ob = eval(body, oc.env, inc, f);
        if let Ok(v) = ob.result {
            keep_loop(c, body, ob.env, inc, (f - 1) as nat, v);
        }
    }
}

proof fn keep_logical(k: SKind, lhs: AstV, rhs: AstV, env: Env, inc: IncludesV, f: nat)
    requires
        sorted_keys(env),
    ensures
        sorted_keys(eval_logical(k, lhs, rhs, env, inc, f).env),
    decreases f, 2nat, 0nat,
{
    keep_eval(lhs, env, inc, f);
    let o1 = eval(lhs, env, inc, f);
    keep_eval(rhs, o1.env, inc, f);
}

proof fn keep_combine(k: SKind, a: AstV, b: AstV, env: Env, inc: IncludesV, f: nat)
    requires
        sorted_keys(env),
    ensures
        sorted_keys(eval_combine(k, a, b, env, inc, f).env),
    decreases f, 2nat, 0nat,
{
    keep_eval(a, env, inc, f);
    let ol = eval(a, env, inc, f);
    keep_eval(b, ol.env, inc, f);
}

proof fn keep_binding(a: AstV, b: AstV, env: Env, inc: IncludesV, f: nat)
    requires
        sorted_keys(env),
    ensures
        sorted_keys(eval_binding(a, b, env, inc, f).env),
    decreases f, 2nat, 0nat,
{
    if let AstV::ValueIdentifier(id) = a {
        let o = eval(b, env, inc, f);
        if let Ok(v) = o.result {
            lemma_field_put_sorted(env, id, v);
        }
    }
}

proof fn keep_index(a: AstV, b: AstV, env: Env, inc: IncludesV, f: nat)
    requires
        sorted_keys(env),
    ensures
        sorted_keys(eval_index(a, b, env, inc, f).env),
    decreases f, 2nat, 0nat,
{
    keep_eval(a, env, inc, f);
    let od = eval(a, env, inc, f);
    keep_eval(b, od.env, inc, f);
}

proof fn keep_length(a: AstV, env: Env, inc: IncludesV, f: nat)
    requires
        sorted_keys(env),
    ensures
        sorted_keys(eval_length(a, env, inc, f).env),
    decreases f, 2nat, 0nat,
{
    keep_eval(a, env, inc, f);
}

proof fn keep_range(a: AstV, b: AstV, env: Env, inc: IncludesV, f: nat)
    requires
        sorted_keys(env),
    ensures
        sorted_keys(eval_range(a, b, env, inc, f).env),
    decreases f, 2nat, 0nat,
{
    keep_eval(a, env, inc, f);
    let os = eval(a, env, inc, f);
    keep_eval(b, os.env, inc, f);
}

proof fn keep_declare(name: AstV, body: AstV, env: Env)
    requires
        sorted_keys(env),
    ensures
        sorted_keys(declare_struct(name, body, env).env),
{
    if let AstV::ValueIdentifier(id) = name {
        if let AstV::ExpressionList(list) = body {
            if let Ok(m) = declared_fields(list, Seq::empty()) {
                lemma_field_put_sorted(env, id, DatatypeV::StructType(id, crate::model::TypeV::Struct(m)));
            }
        }
    }
}

proof fn keep_field(a: AstV, b: AstV, env: Env, inc: IncludesV, f: nat)
    requires
        sorted_keys(env),
    ensures
        sorted_keys(eval_field(a, b, env, inc, f).env),
    decreases f, 2nat, 0nat,
{
    keep_eval(a, env, inc, f);
}

proof fn keep_new_struct(a: AstV, b: AstV, env: Env, inc: IncludesV, f: nat)
    requires
        sorted_keys(env),
    ensures
        sorted_keys(eval_new_struct(a, b, env, inc, f).env),
    decreases f, 3nat, 0nat,
{
    keep_eval(a, env, inc, f);
    let od = eval(a, env, inc, f);
    if let Ok(DatatypeV::StructType(_, crate::model::TypeV::Struct(types))) = od.result {
        if let AstV::ExpressionList(list) = b {
            keep_create_fields(list, types, od.env, inc, f, Seq::empty());
        }
    }
}

proof fn keep_create_fields(
    list: Seq<AstV>,
    types: Seq<(Seq<char>, crate::model::TypeV)>,
    env: Env,
    inc: IncludesV,
    f: nat,
    acc: Seq<(Seq<char>, DatatypeV)>,
)
    requires
        sorted_keys(env),
    ensures
        sorted_keys(create_fields(list, types, env, inc, f, acc).env),
    decreases f, 2nat, list.len(),
{
    if list.len() > 0 {
        if let AstV::Op(k, args) = list[0] {
            if k == SKind::FieldAssignment {
                if let AstV::ValueIdentifier(name) = args[0] {
                    keep_eval(args[1], env, inc, f);
                    let o = eval(args[1], env, inc, f);
                    if let Ok(v) = o.result {
                        keep_create_fields(list.drop_first(), types, o.env, inc, f, field_put(acc, name, v));
                    }
                }
            }
        }
    }
}

proof fn keep_print(a: AstV, env: Env, inc: IncludesV, f: nat)
    requires
        sorted_keys(env),
    ensures
        sorted_keys(eval_print(a, env, inc, f).env),
    decreases f, 2nat, 0nat,
{
    keep_eval(a, env, inc, f);
}

proof fn keep_include(a: AstV, env: Env, inc: IncludesV, f: nat)
    requires
        sorted_keys(env),
    ensures
        sorted_keys(eval_include(a, env, inc, f).env),
    decreases f, 2nat, 0nat,
{
    keep_eval(a, env, inc, f);
    let o = eval(a, env, inc, f);
    if let Ok(DatatypeV::String(name)) = o.result {
        if let Some(LoadedV::Program(program)) = include_get(inc, name) {
            keep_eval(program, o.env, inc, f);
        }
    }
}

proof fn keep_unary(k: SKind, a: AstV, env: Env, inc: IncludesV, f: nat)
    requires
        sorted_keys(env),
    ensures
        sorted_keys(eval_unary(k, a, env, inc, f).env),
    decreases f, 2nat, 0nat,
{
    keep_eval(a, env, inc, f);
}

/// Evaluating any expression keeps the variables in strictly ascending order
/// of their names, so that no name is ever bound twice.
pub proof fn law_evaluation_keeps_names_ascending(a: AstV, env: Env, inc: IncludesV, fuel: nat)
    requires
        sorted_keys(env),
    ensures
        sorted_keys(eval(a, env, inc, fuel).env),
{
    keep_eval(a, env, inc, fuel);
}

} // verus!
