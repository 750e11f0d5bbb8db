use vstd::prelude::*;
use crate::model::{AstV, DatatypeV, TypeV, SKind};
use crate::semantics::{Env, IncludesV, eval, eval_op, eval_combine, eval_logical, combine, unary_value, range_values};
use crate::errors::LangErrorV;
use crate::values::{value_add, value_sub, value_mul, value_div, value_rem};
use crate::types::{type_add, type_sub_mul, type_div, type_rem};
use crate::typecheck::{StoreV, MutabilityV, check};
use crate::mutability::{Mutability, MutabilityError, mutability_check};
use crate::fields::lemma_field_put_get;
use crate::text::{int_to_decimal, nat_to_decimal, digit_char};
use crate::parser::{is_digit, digits_value, token, type_signature, skip_ws, at_text};
use crate::arith::{wrap_i32, trunc_div, trunc_rem, abs};

verus! {

// What the operations of the language mean, stated by what their results
// must satisfy rather than by how they are computed.

/// Whether `x` fits an `i32`.
pub open spec fn fits_i32(x: int) -> bool {
    i32::MIN <= x <= i32::MAX
}

proof fn lemma_wrap_in_range(x: int)
    requires
        fits_i32(x),
    ensures
        wrap_i32(x) == x,
{
    if x < 0 {
        assert(x % 0x1_0000_0000 == x + 0x1_0000_0000);
    } else {
        assert(x % 0x1_0000_0000 == x);
    }
}

proof fn lemma_wrap_congruent(x: int)
    ensures
        fits_i32(wrap_i32(x)),
        (wrap_i32(x) - x) % 0x1_0000_0000 == 0,
{
    let m = x % 0x1_0000_0000;
    assert(x == (x / 0x1_0000_0000) * 0x1_0000_0000 + m);
    if m >= 0x8000_0000 {
        assert(m - 0x1_0000_0000 - x == -(x / 0x1_0000_0000 + 1) * 0x1_0000_0000);
        assert((-(x / 0x1_0000_0000 + 1) * 0x1_0000_0000) % 0x1_0000_0000 == 0) by (nonlinear_arith);
    } else {
        assert(m - x == -(x / 0x1_0000_0000) * 0x1_0000_0000);
        assert((-(x / 0x1_0000_0000) * 0x1_0000_0000) % 0x1_0000_0000 == 0) by (nonlinear_arith);
    }
}

/// The decimal text of a number reads back as that number: a natural number
/// is written with digits only, whose value is the number, and the first
/// digit is no `0` unless the number is zero.
pub proof fn law_decimal_text_reads_back(n: nat)
    ensures
        nat_to_decimal(n).len() > 0,
        forall|k: int| 0 <= k < nat_to_decimal(n).len() ==> is_digit(#[trigger] nat_to_decimal(n)[k]),
        digits_value(nat_to_decimal(n)) == n,
        n > 0 ==> nat_to_decimal(n)[0] != '0',
    decreases n,
{
    if n < 10 {
        let d = nat_to_decimal(n);
        assert(d == seq![digit_char(n as int)]);
        assert(d.drop_last() =~= Seq::<char>::empty());
        assert(digits_value(Seq::<char>::empty()) == 0);
    } else {
        law_decimal_text_reads_back(n / 10);
        let d = nat_to_decimal(n);
        let p = nat_to_decimal(n / 10);
        assert(d == p.push(digit_char((n % 10) as int)));
        assert(d.drop_last() =~= p);
        assert(forall|k: int| 0 <= k < p.len() ==> d[k] == p[k]);
        assert(n == (n / 10) * 10 + n % 10);
        assert(d[0] == p[0]);
    }
}

/// The text of a negative number is a `-` followed by the text of its size.
pub proof fn law_negative_decimal_text(n: int)
    requires
        n < 0,
    ensures
        int_to_decimal(n)[0] == '-',
        int_to_decimal(n).skip(1) == nat_to_decimal((-n) as nat),
{
    assert((seq!['-'] + nat_to_decimal((-n) as nat)).skip(1) =~= nat_to_decimal((-n) as nat));
}

/// Adding two numbers gives their sum when it fits an `i32`, and in any case
/// the one `i32` that differs from the sum by a multiple of 2^32.
pub proof fn law_number_addition(x: i32, y: i32)
    ensures
        value_add(DatatypeV::Number(x), DatatypeV::Number(y)) matches Ok(DatatypeV::Number(z))
            && (z - (x + y)) % 0x1_0000_0000 == 0,
        fits_i32(x + y) ==> value_add(DatatypeV::Number(x), DatatypeV::Number(y)) == Ok::<DatatypeV, LangErrorV>(
            DatatypeV::Number((x + y) as i32),
        ),
{
    lemma_wrap_congruent(x + y);
    if fits_i32(x + y) {
        lemma_wrap_in_range(x + y);
    }
}

/// Subtracting and multiplying numbers give the difference and the product
/// when they fit an `i32`.
pub proof fn law_number_subtraction_and_product(x: i32, y: i32)
    ensures
        fits_i32(x - y) ==> value_sub(DatatypeV::Number(x), DatatypeV::Number(y)) == Ok::<DatatypeV, LangErrorV>(
            DatatypeV::Number((x - y) as i32),
        ),
        fits_i32(x * y) ==> value_mul(DatatypeV::Number(x), DatatypeV::Number(y)) == Ok::<DatatypeV, LangErrorV>(
            DatatypeV::Number((x * y) as i32),
        ),
{
    if fits_i32(x - y) {
        lemma_wrap_in_range(x - y);
    }
    if fits_i32(x * y) {
        lemma_wrap_in_range(x * y);
    }
}

/// Dividing numbers gives a quotient `q` and a remainder `r` with
/// `x == q * y + r`, `r` smaller than `y` in size and of the sign of `x`:
/// division rounds toward zero.
pub proof fn law_number_division(x: i32, y: i32)
    requires
        y != 0,
        !(x == i32::MIN && y == -1),
    ensures
        value_div(DatatypeV::Number(x), DatatypeV::Number(y)) matches Ok(DatatypeV::Number(q))
            && value_rem(DatatypeV::Number(x), DatatypeV::Number(y)) matches Ok(DatatypeV::Number(r))
            && x == q * y + r && abs(r as int) < abs(y as int) && (r == 0 || (r < 0) == (x < 0)),
{
    let a = x as int;
    let b = y as int;
    let qa = abs(a) / abs(b);
    let ra = abs(a) % abs(b);
    assert(abs(a) == qa * abs(b) + ra && 0 <= ra < abs(b)) by (nonlinear_arith)
        requires
            abs(b) > 0,
            qa == abs(a) / abs(b),
            ra == abs(a) % abs(b),
    ;
    assert(qa <= abs(a)) by (nonlinear_arith)
        requires
            abs(b) >= 1,
            qa == abs(a) / abs(b),
            abs(a) >= 0,
    ;
    let q = trunc_div(a, b);
    let r = trunc_rem(a, b);
    assert(a == q * b + r) by (nonlinear_arith)
        requires
            abs(a) == qa * abs(b) + ra,
            q == (if (a < 0) != (b < 0) { -qa } else { qa }),
            r == (if a < 0 { -ra } else { ra }),
            abs(a) == (if a < 0 { -a } else { a }),
            abs(b) == (if b < 0 { -b } else { b }),
    ;
    if qa == 0x8000_0000 {
        assert(abs(a) == 0x8000_0000);
        assert(qa * abs(b) <= abs(a));
        assert(abs(b) == 1) by (nonlinear_arith)
            requires
                qa == 0x8000_0000,
                qa * abs(b) <= 0x8000_0000,
                abs(b) >= 1,
        ;
    }
    assert(fits_i32(q));
    lemma_wrap_in_range(q);
}

/// A number followed by a text: the number's decimal digits come first,
/// then the text.
pub proof fn law_number_then_text(n: i32, s: Seq<char>)
    ensures
        value_add(DatatypeV::Number(n), DatatypeV::String(s)) == Ok::<DatatypeV, LangErrorV>(
            DatatypeV::String(int_to_decimal(n as int) + s),
        ),
        ({
            let t = value_add(DatatypeV::Number(n), DatatypeV::String(s))->Ok_0->String_0;
            &&& t.len() == int_to_decimal(n as int).len() + s.len()
            &&& t.take(int_to_decimal(n as int).len() as int) == int_to_decimal(n as int)
            &&& t.skip(int_to_decimal(n as int).len() as int) == s
        }),
{
    let d = int_to_decimal(n as int);
    assert((d + s).take(d.len() as int) =~= d);
    assert((d + s).skip(d.len() as int) =~= s);
}

/// A text followed by a number, or by another text: the text comes first.
pub proof fn law_text_then_value(s: Seq<char>, n: i32, t: Seq<char>)
    ensures
        value_add(DatatypeV::String(s), DatatypeV::Number(n)) == Ok::<DatatypeV, LangErrorV>(
            DatatypeV::String(s + int_to_decimal(n as int)),
        ),
        value_add(DatatypeV::String(s), DatatypeV::String(t)) == Ok::<DatatypeV, LangErrorV>(DatatypeV::String(s + t)),
        (s + t).take(s.len() as int) == s,
        (s + t).skip(s.len() as int) == t,
{
    assert((s + t).take(s.len() as int) =~= s);
    assert((s + t).skip(s.len() as int) =~= t);
}

/// `5 + " apples"` as a program: evaluating a number plus a text gives the
/// number's digits followed by the text.
pub proof fn law_evaluated_number_then_text(n: i32, s: Seq<char>, env: Env, inc: IncludesV, fuel: nat)
    requires
        fuel >= 2,
    ensures
        eval(
            AstV::Op(SKind::Add, seq![AstV::Literal(DatatypeV::Number(n)), AstV::Literal(DatatypeV::String(s))]),
            env,
            inc,
            fuel,
        ).result == Ok::<DatatypeV, LangErrorV>(DatatypeV::String(int_to_decimal(n as int) + s)),
{
    let a = AstV::Literal(DatatypeV::Number(n));
    let b = AstV::Literal(DatatypeV::String(s));
    let args = seq![a, b];
    assert(args[0] == a && args[1] == b);
    assert(eval(AstV::Op(SKind::Add, args), env, inc, fuel) == eval_op(SKind::Add, args, env, inc, fuel));
    assert(eval_op(SKind::Add, args, env, inc, fuel) == eval_combine(SKind::Add, a, b, env, inc, (fuel - 1) as nat));
}

/// The arithmetic operators on two numbers have type `Number`, as a value
/// and in the type checker: `+ - * / %` of number literals check as a
/// mutable `Number`, leaving the store as it was.
pub proof fn law_number_arithmetic_types(k: SKind, a: i32, b: i32, st: StoreV)
    requires
        k == SKind::Add || k == SKind::Subtract || k == SKind::Multiply || k == SKind::Divide || k == SKind::Modulo,
    ensures
        type_add(TypeV::Number, TypeV::Number) == Ok::<TypeV, crate::types::TypeErrorV>(TypeV::Number),
        type_sub_mul(TypeV::Number, TypeV::Number) == Ok::<TypeV, crate::types::TypeErrorV>(TypeV::Number),
        type_div(TypeV::Number, TypeV::Number) == Ok::<TypeV, crate::types::TypeErrorV>(TypeV::Number),
        type_rem(TypeV::Number, TypeV::Number) == Ok::<TypeV, crate::types::TypeErrorV>(TypeV::Number),
        check(
            AstV::Op(k, seq![AstV::Literal(DatatypeV::Number(a)), AstV::Literal(DatatypeV::Number(b))]),
            st,
        ) == Some((Ok::<MutabilityV, crate::types::TypeErrorV>(MutabilityV::Mutable(TypeV::Number)), st)),
{
    let args = seq![AstV::Literal(DatatypeV::Number(a)), AstV::Literal(DatatypeV::Number(b))];
    assert(args[0] == AstV::Literal(DatatypeV::Number(a)));
    assert(args[1] == AstV::Literal(DatatypeV::Number(b)));
    assert(check(args[0], st) == Some((Ok::<MutabilityV, crate::types::TypeErrorV>(MutabilityV::Mutable(TypeV::Number)), st)));
    assert(check(args[1], st) == Some((Ok::<MutabilityV, crate::types::TypeErrorV>(MutabilityV::Mutable(TypeV::Number)), st)));
}

/// A number plus a text, either way round, checks as a `String`.
pub proof fn law_text_sum_type()
    ensures
        type_add(TypeV::Number, TypeV::String) == Ok::<TypeV, crate::types::TypeErrorV>(TypeV::String),
        type_add(TypeV::String, TypeV::Number) == Ok::<TypeV, crate::types::TypeErrorV>(TypeV::String),
        type_add(TypeV::String, TypeV::String) == Ok::<TypeV, crate::types::TypeErrorV>(TypeV::String),
{
}

/// Once `fn name ...` is accepted, assigning `name` breaks the rules, and
/// declaring another function of that name is refused.
pub proof fn law_function_is_not_reassigned(name: Seq<char>, e: AstV, e2: AstV, m: Seq<(Seq<char>, Mutability)>)
    requires
        mutability_check(AstV::Op(SKind::DeclareFunction, seq![AstV::ValueIdentifier(name), e]), m).0 is Ok,
    ensures
        ({
            let m1 = mutability_check(AstV::Op(SKind::DeclareFunction, seq![AstV::ValueIdentifier(name), e]), m).1;
            &&& mutability_check(AstV::Op(SKind::Assignment, seq![AstV::ValueIdentifier(name), e2]), m1).0
                == Err::<(), MutabilityError>(MutabilityError::CanNotAssignToConstVariable)
            &&& mutability_check(AstV::Op(SKind::DeclareFunction, seq![AstV::ValueIdentifier(name), e2]), m1).0
                == Err::<(), MutabilityError>(MutabilityError::CanNotRedeclareFunction)
        }),
{
    lemma_field_put_get(m, name, Mutability::Immutable, name);
}

/// Once `struct Name { ... }` is accepted, assigning `Name` breaks the
/// rules, and declaring another struct of that name is refused.
pub proof fn law_struct_name_is_not_reassigned(name: Seq<char>, e: AstV, e2: AstV, m: Seq<(Seq<char>, Mutability)>)
    requires
        mutability_check(AstV::Op(SKind::StructDeclaration, seq![AstV::ValueIdentifier(name), e]), m).0 is Ok,
    ensures
        ({
            let m1 = mutability_check(AstV::Op(SKind::StructDeclaration, seq![AstV::ValueIdentifier(name), e]), m).1;
            &&& mutability_check(AstV::Op(SKind::Assignment, seq![AstV::ValueIdentifier(name), e2]), m1).0
                == Err::<(), MutabilityError>(MutabilityError::CanNotAssignToConstVariable)
            &&& mutability_check(AstV::Op(SKind::StructDeclaration, seq![AstV::ValueIdentifier(name), e2]), m1).0
                == Err::<(), MutabilityError>(MutabilityError::CanNotRedeclareStruct)
        }),
{
    lemma_field_put_get(m, name, Mutability::Immutable, name);
}

/// The built-in type names read as their own types: `Number`, `String` and
/// `Bool` give the types `Number`, `String` and `Bool`, never a struct type.
pub proof fn law_builtin_type_names(s: Seq<char>, i: int, f: nat)
    requires
        f > 0,
    ensures
        token(s, i, "Number"@) matches Some(j) ==> type_signature(s, i, f) == Some((TypeV::Number, j)),
        token(s, i, "String"@) matches Some(j) ==> type_signature(s, i, f) == Some((TypeV::String, j)),
        token(s, i, "Bool"@) matches Some(j) ==> type_signature(s, i, f) == Some((TypeV::Bool, j)),
{
    reveal_strlit("Number");
    reveal_strlit("String");
    reveal_strlit("Bool");
    let p = skip_ws(s, i);
    if at_text(s, p, "String"@) {
        assert(s.subrange(p, p + 6)[0] == s[p]);
        assert(s[p] == 'S');
        if at_text(s, p, "Number"@) {
            assert(s.subrange(p, p + 6)[0] == s[p]);
        }
    }
    if at_text(s, p, "Bool"@) {
        assert(s.subrange(p, p + 4)[0] == s[p]);
        assert(s[p] == 'B');
        if at_text(s, p, "Number"@) {
            assert(s.subrange(p, p + 6)[0] == s[p]);
        }
        if at_text(s, p, "String"@) {
            assert(s.subrange(p, p + 6)[0] == s[p]);
        }
    }
}

/// `&&` and `||` on two boolean operands give the conjunction and the
/// disjunction of their values: `x || y` is true when either side is.
pub proof fn law_logical_operators(k: SKind, a: AstV, b: AstV, env: Env, inc: IncludesV, fuel: nat, x: bool, y: bool)
    requires
        k == SKind::LogicalAnd || k == SKind::LogicalOr,
        fuel > 0,
        eval(a, env, inc, (fuel - 1) as nat).result == Ok::<DatatypeV, LangErrorV>(DatatypeV::Bool(x)),
        eval(b, eval(a, env, inc, (fuel - 1) as nat).env, inc, (fuel - 1) as nat).result == Ok::<DatatypeV, LangErrorV>(
            DatatypeV::Bool(y),
        ),
    ensures
        k == SKind::LogicalAnd ==> eval(AstV::Op(k, seq![a, b]), env, inc, fuel).result == Ok::<DatatypeV, LangErrorV>(
            DatatypeV::Bool(x && y),
        ),
        k == SKind::LogicalOr ==> eval(AstV::Op(k, seq![a, b]), env, inc, fuel).result == Ok::<DatatypeV, LangErrorV>(
            DatatypeV::Bool(x || y),
        ),
        k == SKind::LogicalOr && (x || y) ==> eval(AstV::Op(k, seq![a, b]), env, inc, fuel).result
            == Ok::<DatatypeV, LangErrorV>(DatatypeV::Bool(true)),
{
    let args = seq![a, b];
    assert(args[0] == a && args[1] == b);
    assert(eval(AstV::Op(k, args), env, inc, fuel) == eval_op(k, args, env, inc, fuel));
    assert(eval_op(k, args, env, inc, fuel) == eval_logical(k, a, b, env, inc, (fuel - 1) as nat));
}

/// Comparing two numbers: `<`, `>`, `<=`, `>=`, `==` and `!=` give the
/// truth of that comparison of their values.
pub proof fn law_number_comparisons(x: i32, y: i32)
    ensures
        combine(SKind::LessThan, DatatypeV::Number(x), DatatypeV::Number(y)) == Ok::<DatatypeV, LangErrorV>(DatatypeV::Bool(x < y)),
        combine(SKind::GreaterThan, DatatypeV::Number(x), DatatypeV::Number(y)) == Ok::<DatatypeV, LangErrorV>(DatatypeV::Bool(x > y)),
        combine(SKind::LessThanOrEqual, DatatypeV::Number(x), DatatypeV::Number(y)) == Ok::<DatatypeV, LangErrorV>(DatatypeV::Bool(x <= y)),
        combine(SKind::GreaterThanOrEqual, DatatypeV::Number(x), DatatypeV::Number(y)) == Ok::<DatatypeV, LangErrorV>(DatatypeV::Bool(x >= y)),
        combine(SKind::Equals, DatatypeV::Number(x), DatatypeV::Number(y)) == Ok::<DatatypeV, LangErrorV>(DatatypeV::Bool(x == y)),
        combine(SKind::NotEquals, DatatypeV::Number(x), DatatypeV::Number(y)) == Ok::<DatatypeV, LangErrorV>(DatatypeV::Bool(x != y)),
{
}

/// A comparison or arithmetic operator on two operands gives the operator
/// applied to their values, the left one evaluated first.
pub proof fn law_binary_operator_on_values(k: SKind, a: AstV, b: AstV, env: Env, inc: IncludesV, fuel: nat)
    requires
        crate::semantics::is_combining(k),
        fuel > 0,
        eval(a, env, inc, (fuel - 1) as nat).result is Ok,
        eval(b, eval(a, env, inc, (fuel - 1) as nat).env, inc, (fuel - 1) as nat).result is Ok,
    ensures
        ({
            let f = (fuel - 1) as nat;
            let oa = eval(a, env, inc, f);
            let ob = eval(b, oa.env, inc, f);
            eval(AstV::Op(k, seq![a, b]), env, inc, fuel).result == combine(k, oa.result->Ok_0, ob.result->Ok_0)
        }),
{
    let args = seq![a, b];
    assert(args[0] == a && args[1] == b);
    assert(eval(AstV::Op(k, args), env, inc, fuel) == eval_op(k, args, env, inc, fuel));
    assert(eval_op(k, args, env, inc, fuel) == eval_combine(k, a, b, env, inc, (fuel - 1) as nat));
}

/// `==` and `!=` on any two values give whether the values are the same.
pub proof fn law_equality_of_values(l: DatatypeV, r: DatatypeV)
    ensures
        combine(SKind::Equals, l, r) == Ok::<DatatypeV, LangErrorV>(DatatypeV::Bool(l == r)),
        combine(SKind::NotEquals, l, r) == Ok::<DatatypeV, LangErrorV>(DatatypeV::Bool(l != r)),
        combine(SKind::Equals, l, l) == Ok::<DatatypeV, LangErrorV>(DatatypeV::Bool(true)),
{
}

/// `!b` is the opposite truth value; `-n`, `n++` and `n--` are the
/// negation, successor and predecessor when they fit an `i32`; these
/// operators refuse values of other kinds.
pub proof fn law_unary_operators(b: bool, n: i32, d: DatatypeV)
    ensures
        unary_value(SKind::Invert, DatatypeV::Bool(b)) == Ok::<DatatypeV, LangErrorV>(DatatypeV::Bool(!b)),
        fits_i32(-n) ==> unary_value(SKind::Negate, DatatypeV::Number(n)) == Ok::<DatatypeV, LangErrorV>(DatatypeV::Number((-n) as i32)),
        fits_i32(n + 1) ==> unary_value(SKind::Increment, DatatypeV::Number(n)) == Ok::<DatatypeV, LangErrorV>(DatatypeV::Number((n + 1) as i32)),
        fits_i32(n - 1) ==> unary_value(SKind::Decrement, DatatypeV::Number(n)) == Ok::<DatatypeV, LangErrorV>(DatatypeV::Number((n - 1) as i32)),
        !(d is Bool) ==> unary_value(SKind::Invert, d) == Err::<DatatypeV, LangErrorV>(LangErrorV::InvertNonBoolean),
        !(d is Number) ==> unary_value(SKind::Negate, d) == Err::<DatatypeV, LangErrorV>(LangErrorV::NegateNotNumber),
        !(d is Number) ==> unary_value(SKind::Increment, d) == Err::<DatatypeV, LangErrorV>(LangErrorV::IncrementNonNumber),
        !(d is Number) ==> unary_value(SKind::Decrement, d) == Err::<DatatypeV, LangErrorV>(LangErrorV::DecrementNonNumber),
{
    if fits_i32(-n) {
        lemma_wrap_in_range(-n);
    }
    if fits_i32(n + 1) {
        lemma_wrap_in_range(n + 1);
    }
    if fits_i32(n - 1) {
        lemma_wrap_in_range(n - 1);
    }
}

/// `[start..end]` holds the numbers from `start` up to, not including,
/// `end`, in order; it is empty when `end` is not after `start`.
pub proof fn law_range(start: i32, end: i32)
    ensures
        range_values(start, end).len() == (if start < end { end - start } else { 0 }),
        forall|k: int| 0 <= k < range_values(start, end).len() ==> #[trigger] range_values(start, end)[k] == DatatypeV::Number((start + k) as i32),
{
}

/// Comparisons and `&&`, `||` check as `Bool`; a number plus a truth value
/// is refused by the type checker.
pub proof fn law_comparison_types(k: SKind, a: AstV, b: AstV, st: StoreV)
    requires
        crate::typecheck::is_boolean(k),
    ensures
        check(AstV::Op(k, seq![a, b]), st) == Some((Ok::<MutabilityV, crate::types::TypeErrorV>(MutabilityV::Mutable(TypeV::Bool)), st)),
        type_add(TypeV::Number, TypeV::Bool) == Err::<TypeV, crate::types::TypeErrorV>(
            crate::types::TypeErrorV::UnsupportedOperation(TypeV::Number, TypeV::Bool),
        ),
{
}

proof fn lemma_digits_end_all(s: Seq<char>, j: int)
    requires
        0 <= j <= s.len(),
        forall|k: int| 0 <= k < s.len() ==> is_digit(#[trigger] s[k]),
    ensures
        crate::parser::digits_end(s, j) == s.len(),
    decreases s.len() - j,
{
    if j < s.len() {
        lemma_digits_end_all(s, j + 1);
    }
}

/// Reading the decimal text of a number that fits an `i32` gives the number
/// back, all of the text read.
pub proof fn law_number_text_round_trip(n: i32)
    requires
        n >= 0,
    ensures
        crate::parser::number(int_to_decimal(n as int), 0) == Some((n, int_to_decimal(n as int).len() as int)),
{
    let d = nat_to_decimal(n as nat);
    law_decimal_text_reads_back(n as nat);
    assert(int_to_decimal(n as int) == d);
    assert(!crate::parser::is_space(d[0]));
    assert(skip_ws(d, 0) == 0);
    lemma_digits_end_all(d, 0);
    assert(d.subrange(0, d.len() as int) =~= d);
}

/// `print(e)` gives the value of `e` and adds it, last, to what was printed.
pub proof fn law_print_records_value(a: AstV, env: Env, inc: IncludesV, fuel: nat)
    requires
        fuel > 0,
        eval(a, env, inc, (fuel - 1) as nat).result is Ok,
    ensures
        ({
            let o = eval(a, env, inc, (fuel - 1) as nat);
            let v = o.result->Ok_0;
            let p = eval(AstV::Op(SKind::Print, seq![a]), env, inc, fuel);
            &&& p.result == Ok::<DatatypeV, LangErrorV>(v)
            &&& p.printed.len() == o.printed.len() + 1
            &&& p.printed.last().1 == v
            &&& p.printed.drop_last() == o.printed
            &&& p.env == o.env
        }),
{
    let args = seq![a];
    assert(args[0] == a);
    assert(eval(AstV::Op(SKind::Print, args), env, inc, fuel) == eval_op(SKind::Print, args, env, inc, fuel));
    assert(eval_op(SKind::Print, args, env, inc, fuel) == crate::semantics::eval_print(a, env, inc, (fuel - 1) as nat));
    let o = eval(a, env, inc, (fuel - 1) as nat);
    assert(o.printed.push((crate::semantics::print_label(a, o.result->Ok_0), o.result->Ok_0)).drop_last() =~= o.printed);
}

} // verus!
