use vstd::prelude::*;
use crate::model::{AstV, DatatypeV, TypeV, SKind};
use crate::semantics::{Env, IncludesV, eval, eval_op, eval_binding, eval_call, combine};
use crate::errors::LangErrorV;
use crate::fields::{field_get, field_put, lemma_field_put_get};
use crate::mutability::{Mutability, MutabilityError, mutability_check};
use crate::typecheck::{StoreV, MutabilityV, check};
use crate::types::TypeErrorV;
use crate::interpreter::{hoisted, struct_declarations, function_declarations, other_expressions, is_struct_declaration, is_function_declaration};
use crate::values::{Comparison, type_compare};
use crate::semantics::create_fields;
use crate::fields::{sorted_keys, lemma_field_put_sorted};
use crate::text::{seq_lt, lemma_seq_lt_total, lemma_seq_lt_asymmetric, lemma_seq_lt_irreflexive};
use crate::operator::{Operator, operator_precedence};
use crate::expressions::{grouped, operator_kind, is_unary_operator, loosest, lemma_loosest};

verus! {

/// After `name := expression` succeeds with a value, reading `name` gives
/// that value back.
pub proof fn law_read_after_assignment(name: Seq<char>, e: AstV, env: Env, inc: IncludesV, fuel: nat, fuel2: nat)
    requires
        fuel2 > 0,
        eval(AstV::Op(SKind::Assignment, seq![AstV::ValueIdentifier(name), e]), env, inc, fuel).result is Ok,
    ensures
        ({
            let o = eval(AstV::Op(SKind::Assignment, seq![AstV::ValueIdentifier(name), e]), env, inc, fuel);
            eval(AstV::ValueIdentifier(name), o.env, inc, fuel2).result == o.result
        }),
{
    let o = eval(AstV::Op(SKind::Assignment, seq![AstV::ValueIdentifier(name), e]), env, inc, fuel);
    assert(fuel > 0);
    assert(o == eval_op(SKind::Assignment, seq![AstV::ValueIdentifier(name), e], env, inc, fuel));
    let f = (fuel - 1) as nat;
    assert(o == eval_binding(AstV::ValueIdentifier(name), e, env, inc, f));
    let v = o.result->Ok_0;
    assert(o.env == field_put(env, name, v));
    lemma_field_put_get(env, name, v, name);
}

/// A function call leaves the caller's variables as they were, whatever the
/// function does to its own.
pub proof fn law_call_keeps_caller_variables(callee: AstV, arguments: AstV, env: Env, inc: IncludesV, f: nat)
    ensures
        eval_call(callee, arguments, env, inc, f).env == env,
{
}

/// Dividing, or taking the remainder, by the number zero is refused with
/// `DivideByZero`.
pub proof fn law_division_by_zero(x: i32)
    ensures
        combine(SKind::Divide, DatatypeV::Number(x), DatatypeV::Number(0)) == Err::<DatatypeV, LangErrorV>(LangErrorV::DivideByZero),
        combine(SKind::Modulo, DatatypeV::Number(x), DatatypeV::Number(0)) == Err::<DatatypeV, LangErrorV>(LangErrorV::DivideByZero),
{
}

/// Once `const name := ...` is accepted, assigning `name` again breaks the
/// mutability rules.
pub proof fn law_const_is_not_reassigned(name: Seq<char>, e: AstV, e2: AstV, m: Seq<(Seq<char>, Mutability)>)
    requires
        mutability_check(AstV::Op(SKind::ConstDeclaration, seq![AstV::ValueIdentifier(name), e]), m).0 is Ok,
    ensures
        ({
            let m1 = mutability_check(AstV::Op(SKind::ConstDeclaration, seq![AstV::ValueIdentifier(name), e]), m).1;
            mutability_check(AstV::Op(SKind::Assignment, seq![AstV::ValueIdentifier(name), e2]), m1).0
                == Err::<(), MutabilityError>(MutabilityError::CanNotAssignToConstVariable)
        }),
{
    let m1 = mutability_check(AstV::Op(SKind::ConstDeclaration, seq![AstV::ValueIdentifier(name), e]), m).1;
    assert(m1 == field_put(m, name, Mutability::Immutable));
    lemma_field_put_get(m, name, Mutability::Immutable, name);
}

/// Once the type checker accepts `const name := ...`, it refuses assigning
/// `name` again.
pub proof fn law_checked_const_is_not_reassigned(name: Seq<char>, e: AstV, e2: AstV, st: StoreV)
    requires
        check(AstV::Op(SKind::ConstDeclaration, seq![AstV::ValueIdentifier(name), e]), st) matches Some((Ok(_), _)),
        ({
            let s1 = check(AstV::Op(SKind::ConstDeclaration, seq![AstV::ValueIdentifier(name), e]), st)->Some_0.1;
            check(e2, s1) matches Some((Ok(_), s2)) && field_get(s2, name) == field_get(s1, name)
        }),
    ensures
        ({
            let s1 = check(AstV::Op(SKind::ConstDeclaration, seq![AstV::ValueIdentifier(name), e]), st)->Some_0.1;
            check(AstV::Op(SKind::Assignment, seq![AstV::ValueIdentifier(name), e2]), s1)
                matches Some((Err(TypeErrorV::CanNotAssignToConstVariable), _))
        }),
{
    let c = check(AstV::Op(SKind::ConstDeclaration, seq![AstV::ValueIdentifier(name), e]), st);
    let (r0, s0) = check(e, st)->Some_0;
    let s1 = c->Some_0.1;
    assert(s1 == field_put(s0, name, MutabilityV::Immutable(crate::typecheck::mut_type(r0->Ok_0))));
    lemma_field_put_get(s0, name, MutabilityV::Immutable(crate::typecheck::mut_type(r0->Ok_0)), name);
}

/// Hoisting keeps every expression of the list: the three groups together
/// are exactly as long as the list.
pub proof fn law_hoisting_keeps_length(l: Seq<AstV>)
    ensures
        hoisted(l).len() == l.len(),
    decreases l.len(),
{
    reveal(Seq::filter);
    if l.len() > 0 {
        law_hoisting_keeps_length(l.drop_last());
    }
}

/// Hoisting only reorders: the hoisted list holds exactly the expressions of
/// the list, each as often as before.
pub proof fn law_hoisting_is_a_permutation(l: Seq<AstV>)
    ensures
        hoisted(l).to_multiset() == l.to_multiset(),
    decreases l.len(),
{
    broadcast use vstd::seq_lib::group_to_multiset_ensures, vstd::multiset::group_multiset_axioms;
    reveal(Seq::filter);
    if l.len() == 0 {
        assert(hoisted(l) =~= l);
    } else {
        let d = l.drop_last();
        let x = l.last();
        law_hoisting_is_a_permutation(d);
        let a = d.filter(struct_declarations());
        let b = d.filter(function_declarations());
        let c = d.filter(other_expressions());
        vstd::seq_lib::lemma_multiset_commutative(a, b);
        vstd::seq_lib::lemma_multiset_commutative(a + b, c);
        assert(l =~= d.push(x));
        if is_struct_declaration(x) {
            assert(!is_function_declaration(x));
            vstd::seq_lib::lemma_multiset_commutative(a.push(x), b);
            vstd::seq_lib::lemma_multiset_commutative(a.push(x) + b, c);
            assert(hoisted(l) == a.push(x) + b + c);
        } else if is_function_declaration(x) {
            vstd::seq_lib::lemma_multiset_commutative(a, b.push(x));
            vstd::seq_lib::lemma_multiset_commutative(a + b.push(x), c);
            assert(hoisted(l) == a + b.push(x) + c);
        } else {
            vstd::seq_lib::lemma_multiset_commutative(a + b, c.push(x));
            assert(hoisted(l) == a + b + c.push(x));
        }
        assert(hoisted(l).to_multiset() =~= l.to_multiset());
    }
}

/// A `let` variable may be assigned again: once `let name := ...` is
/// accepted, `name := ...` is too.
pub proof fn law_let_variable_can_be_reassigned(name: Seq<char>, e: AstV, e2: AstV, m: Seq<(Seq<char>, Mutability)>)
    requires
        mutability_check(AstV::Op(SKind::VariableDeclaration, seq![AstV::ValueIdentifier(name), e]), m).0 is Ok,
    ensures
        ({
            let m1 = mutability_check(AstV::Op(SKind::VariableDeclaration, seq![AstV::ValueIdentifier(name), e]), m).1;
            mutability_check(AstV::Op(SKind::Assignment, seq![AstV::ValueIdentifier(name), e2]), m1).0 == Ok::<(), MutabilityError>(())
        }),
{
    lemma_field_put_get(m, name, Mutability::Mutable, name);
}

/// The type `Any` matches every type written on its right.
pub proof fn law_any_matches_every_type(t: TypeV)
    ensures
        type_compare(TypeV::Any, t) == Some(Comparison::Equal),
{
}

/// Storing two different names in a field list gives the same list in
/// either order: a struct's fields do not depend on the order in which they
/// were written.
pub proof fn law_field_order_does_not_matter<W>(s: Seq<(Seq<char>, W)>, k1: Seq<char>, v1: W, k2: Seq<char>, v2: W)
    requires
        k1 != k2,
    ensures
        field_put(field_put(s, k1, v1), k2, v2) == field_put(field_put(s, k2, v2), k1, v1),
    decreases s.len(),
{
    lemma_seq_lt_total(k1, k2);
    lemma_seq_lt_asymmetric(k1, k2);
    lemma_seq_lt_irreflexive(k1);
    lemma_seq_lt_irreflexive(k2);
    if s.len() == 0 {
        let a = field_put(field_put(s, k1, v1), k2, v2);
        let b = field_put(field_put(s, k2, v2), k1, v1);
        assert(field_put(s, k1, v1) == seq![(k1, v1)]);
        assert(field_put(s, k2, v2) == seq![(k2, v2)]);
        let e = Seq::<(Seq<char>, W)>::empty();
        assert(seq![(k1, v1)].drop_first() =~= e);
        assert(seq![(k2, v2)].drop_first() =~= e);
        assert(field_put(e, k1, v1) == seq![(k1, v1)]);
        assert(field_put(e, k2, v2) == seq![(k2, v2)]);
        if seq_lt(k1, k2) {
            assert(a == seq![(k1, v1)] + seq![(k2, v2)]);
            assert(b == seq![(k1, v1)] + seq![(k2, v2)]);
        } else {
            assert(a == seq![(k2, v2)] + seq![(k1, v1)]);
            assert(b == seq![(k2, v2)] + seq![(k1, v1)]);
        }
        assert(a =~= b);
    } else {
        let x = s[0].0;
        let rest = s.drop_first();
        lemma_seq_lt_total(k1, x);
        lemma_seq_lt_total(k2, x);
        lemma_seq_lt_asymmetric(k1, x);
        lemma_seq_lt_asymmetric(k2, x);
        if seq_lt(k1, k2) && seq_lt(k2, x) {
            crate::text::lemma_seq_lt_transitive(k1, k2, x);
        }
        if seq_lt(k2, k1) && seq_lt(k1, x) {
            crate::text::lemma_seq_lt_transitive(k2, k1, x);
        }
        let p1 = field_put(s, k1, v1);
        let p2 = field_put(s, k2, v2);
        let a = field_put(p1, k2, v2);
        let b = field_put(p2, k1, v1);
        let stop1 = x == k1 || seq_lt(k1, x);
        let stop2 = x == k2 || seq_lt(k2, x);
        if !stop1 && !stop2 {
            law_field_order_does_not_matter(rest, k1, v1, k2, v2);
            assert(p1 == seq![s[0]] + field_put(rest, k1, v1));
            assert(p2 == seq![s[0]] + field_put(rest, k2, v2));
            assert((seq![s[0]] + field_put(rest, k1, v1)).drop_first() =~= field_put(rest, k1, v1));
            assert((seq![s[0]] + field_put(rest, k2, v2)).drop_first() =~= field_put(rest, k2, v2));
            assert(a == seq![s[0]] + field_put(field_put(rest, k1, v1), k2, v2));
            assert(b == seq![s[0]] + field_put(field_put(rest, k2, v2), k1, v1));
        } else if stop1 && !stop2 {
            let q = if x == k1 { rest } else { s };
            assert(p1 == seq![(k1, v1)] + q);
            assert((seq![(k1, v1)] + q).drop_first() =~= q);
            assert(a == seq![(k1, v1)] + field_put(q, k2, v2));
            assert(p2 == seq![s[0]] + field_put(rest, k2, v2));
            assert((seq![s[0]] + field_put(rest, k2, v2)).drop_first() =~= field_put(rest, k2, v2));
            if x == k1 {
                assert(b == seq![(k1, v1)] + field_put(rest, k2, v2));
            } else {
                assert(b == seq![(k1, v1)] + p2);
                assert(field_put(s, k2, v2) == p2);
            }
        } else if !stop1 && stop2 {
            let q = if x == k2 { rest } else { s };
            assert(p2 == seq![(k2, v2)] + q);
            assert((seq![(k2, v2)] + q).drop_first() =~= q);
            assert(b == seq![(k2, v2)] + field_put(q, k1, v1));
            assert(p1 == seq![s[0]] + field_put(rest, k1, v1));
            assert((seq![s[0]] + field_put(rest, k1, v1)).drop_first() =~= field_put(rest, k1, v1));
            if x == k2 {
                assert(a == seq![(k2, v2)] + field_put(rest, k1, v1));
            } else {
                assert(a == seq![(k2, v2)] + p1);
                assert(field_put(s, k1, v1) == p1);
            }
        } else {
            let q1 = if x == k1 { rest } else { s };
            let q2 = if x == k2 { rest } else { s };
            assert(p1 == seq![(k1, v1)] + q1);
            assert(p2 == seq![(k2, v2)] + q2);
            assert((seq![(k1, v1)] + q1).drop_first() =~= q1);
            assert((seq![(k2, v2)] + q2).drop_first() =~= q2);
            if seq_lt(k1, k2) {
                assert(a == seq![(k1, v1)] + field_put(q1, k2, v2));
                assert(b == seq![(k1, v1)] + p2);
                assert(field_put(q1, k2, v2) == p2);
            } else {
                assert(b == seq![(k2, v2)] + field_put(q2, k1, v1));
                assert(a == seq![(k2, v2)] + p1);
                assert(field_put(q2, k1, v1) == p1);
            }
        }
        assert(a =~= b);
    }
}

/// The struct that `new` builds holds its fields in ascending order of their
/// names, whatever order they were written in.
pub proof fn law_struct_fields_ascending(
    list: Seq<AstV>,
    types: Seq<(Seq<char>, TypeV)>,
    env: Env,
    inc: IncludesV,
    f: nat,
    acc: Seq<(Seq<char>, DatatypeV)>,
)
    requires
        sorted_keys(acc),
    ensures
        create_fields(list, types, env, inc, f, acc).result matches Ok(DatatypeV::Struct(m)) ==> sorted_keys(m),
    decreases list.len(),
{
    if list.len() > 0 {
        match list[0] {
            AstV::Op(k, args) => {
                if k == SKind::FieldAssignment {
                    match args[0] {
                        AstV::ValueIdentifier(name) => {
                            let o = eval(args[1], env, inc, f);
                            match o.result {
                                Ok(v) => {
                                    lemma_field_put_sorted(acc, name, v);
                                    law_struct_fields_ascending(list.drop_first(), types, o.env, inc, f, field_put(acc, name, v));
                                },
                                Err(_) => {},
                            }
                        },
                        _ => {},
                    }
                }
            },
            _ => {},
        }
    }
}

/// The precedence classes, tightest first: `* / %`, then `+ -`, then the
/// comparisons `> < >= <=`, then `== !=`, then `&& ||`.
pub proof fn law_precedence_classes()
    ensures
        operator_precedence(Operator::Times) == operator_precedence(Operator::Divide),
        operator_precedence(Operator::Divide) == operator_precedence(Operator::Modulo),
        operator_precedence(Operator::Modulo) < operator_precedence(Operator::Plus),
        operator_precedence(Operator::Plus) == operator_precedence(Operator::Minus),
        operator_precedence(Operator::Minus) < operator_precedence(Operator::GreaterThan),
        operator_precedence(Operator::GreaterThan) == operator_precedence(Operator::LessThan),
        operator_precedence(Operator::LessThan) == operator_precedence(Operator::GreaterThanOrEqual),
        operator_precedence(Operator::GreaterThanOrEqual) == operator_precedence(Operator::LessThanOrEqual),
        operator_precedence(Operator::LessThanOrEqual) < operator_precedence(Operator::Equals),
        operator_precedence(Operator::Equals) == operator_precedence(Operator::NotEquals),
        operator_precedence(Operator::NotEquals) < operator_precedence(Operator::LogicalAnd),
        operator_precedence(Operator::LogicalAnd) == operator_precedence(Operator::LogicalOr),
{
}

/// Whether every (operator, operand) pair is a two-operand operator with its
/// right operand, as the parser reads `a op b op c ...`.
pub open spec fn all_binary(items: Seq<(Operator, Option<AstV>)>) -> bool {
    forall|i: int| 0 <= i < items.len() ==> !is_unary_operator(#[trigger] items[i].0) && items[i].1 is Some
}

/// A run of two-operand operators always groups, and follows the precedence
/// classes with left associativity: the operator applied last is one that
/// binds loosest, every operator before it binds at most as loosely, and
/// every operator after it binds strictly tighter; its operands are the
/// groupings of what stands before it and of what stands after it.
pub proof fn law_grouping_follows_precedence(lhs: AstV, items: Seq<(Operator, Option<AstV>)>)
    requires
        all_binary(items),
    ensures
        grouped(lhs, items) is Some,
        items.len() > 0 ==> ({
            let j = loosest(items);
            &&& 0 <= j < items.len()
            &&& forall|i: int| 0 <= i < j ==> operator_precedence(#[trigger] items[i].0) <= operator_precedence(items[j].0)
            &&& forall|i: int| j < i < items.len() ==> operator_precedence(#[trigger] items[i].0) < operator_precedence(items[j].0)
            &&& grouped(lhs, items) == Some(AstV::Op(
                operator_kind(items[j].0)->Some_0,
                seq![grouped(lhs, items.take(j))->Some_0, grouped(items[j].1->Some_0, items.skip(j + 1))->Some_0],
            ))
        }),
    decreases items.len(),
{
    if items.len() > 0 {
        let j = loosest(items);
        lemma_loosest(items);
        let pre = items.take(j);
        let post = items.skip(j + 1);
        assert(all_binary(pre)) by {
            assert forall|i: int| 0 <= i < pre.len() implies #[trigger] pre[i] == items[i] by {}
        }
        assert(all_binary(post)) by {
            assert forall|i: int| 0 <= i < post.len() implies #[trigger] post[i] == items[i + j + 1] by {}
        }
        law_grouping_follows_precedence(lhs, pre);
        law_grouping_follows_precedence(items[j].1->Some_0, post);
        assert(!is_unary_operator(items[j].0));
    }
}

/// In `a op1 b op2 c` the second operator takes `b` from the first when it
/// binds tighter: the result is `a op1 (b op2 c)`; otherwise, for an operator
/// of the same class or a looser one, it is `(a op1 b) op2 c`, read left to
/// right.
pub proof fn law_three_operands_grouped_by_precedence(a: AstV, op1: Operator, b: AstV, op2: Operator, c: AstV)
    requires
        !is_unary_operator(op1),
        !is_unary_operator(op2),
    ensures
        ({
            let k1 = operator_kind(op1)->Some_0;
            let k2 = operator_kind(op2)->Some_0;
            grouped(a, seq![(op1, Some(b)), (op2, Some(c))]) == if operator_precedence(op2) < operator_precedence(op1) {
                Some(AstV::Op(k1, seq![a, AstV::Op(k2, seq![b, c])]))
            } else {
                Some(AstV::Op(k2, seq![AstV::Op(k1, seq![a, b]), c]))
            }
        }),
{
    let items = seq![(op1, Some(b)), (op2, Some(c))];
    let e = Seq::<(Operator, Option<AstV>)>::empty();
    assert(all_binary(items));
    law_grouping_follows_precedence(a, items);
    assert(items.drop_last() =~= seq![(op1, Some(b))]);
    assert(loosest(seq![(op1, Some(b))]) == 0);
    assert(grouped(a, e) == Some(a));
    assert(grouped(b, e) == Some(b));
    assert(grouped(c, e) == Some(c));
    if operator_precedence(op2) < operator_precedence(op1) {
        assert(loosest(items) == 0);
        assert(items.take(0) =~= e);
        let post = items.skip(1);
        assert(post =~= seq![(op2, Some(c))]);
        assert(all_binary(post));
        law_grouping_follows_precedence(b, post);
        assert(post.take(0) =~= e);
        assert(post.skip(1) =~= e);
    } else {
        assert(loosest(items) == 1);
        assert(items.skip(2) =~= e);
        let pre = items.take(1);
        assert(pre =~= seq![(op1, Some(b))]);
        assert(all_binary(pre));
        law_grouping_follows_precedence(a, pre);
        assert(pre.take(0) =~= e);
        assert(pre.skip(1) =~= e);
    }
}

} // verus!
