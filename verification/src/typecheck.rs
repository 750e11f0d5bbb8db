use vstd::prelude::*;
use crate::ast::{Ast, Datatype, TypeInfo, TypeError};
use crate::model::{AstV, TypeV, SKind, is_unary, view_ast, view_asts, view_ty, view_tys, lemma_view_asts, lemma_view_sexpr_is_op};
use crate::types::{TypeResult, TypeErrorV, view_type_result, type_add, type_sub_mul, type_div, type_rem};
use crate::fields::{field_get, field_put, raw_get, raw_put, get_field, put_field};
use crate::deep::{decompose, copy_type, copy_string, lemma_view_tys_push};
use crate::value_types::type_of;
use crate::equality::type_eq;
use crate::text::seq_lt;

verus! {

broadcast use crate::fields::lemma_seq_add_empty;

/// A type known to the checker, with whether the name holding it may be
/// assigned again.
#[derive(Debug, PartialEq)]
pub enum Mutability {
    Mutable(TypeInfo),
    Immutable(TypeInfo),
}

/// The model of a `Mutability`.
pub ghost enum MutabilityV {
    Mutable(TypeV),
    Immutable(TypeV),
}

pub open spec fn view_mutability(m: Mutability) -> MutabilityV {
    match m {
        Mutability::Mutable(t) => MutabilityV::Mutable(view_ty(t)),
        Mutability::Immutable(t) => MutabilityV::Immutable(view_ty(t)),
    }
}

impl View for Mutability {
    type V = MutabilityV;

    open spec fn view(&self) -> MutabilityV {
        view_mutability(*self)
    }
}

/// The type inside a `MutabilityV`.
pub open spec fn mut_type(m: MutabilityV) -> TypeV {
    match m {
        MutabilityV::Mutable(t) => t,
        MutabilityV::Immutable(t) => t,
    }
}

/// The result of checking an expression.
pub type MutabilityResult = Result<Mutability, TypeError>;

pub open spec fn view_mutability_result(r: MutabilityResult) -> Result<MutabilityV, TypeErrorV> {
    match r {
        Ok(m) => Ok(m@),
        Err(e) => Err(e@),
    }
}

/// A type result as a mutable binding.
pub open spec fn mutable_result(r: Result<TypeV, TypeErrorV>) -> Result<MutabilityV, TypeErrorV> {
    match r {
        Ok(t) => Ok(MutabilityV::Mutable(t)),
        Err(e) => Err(e),
    }
}

/// The names known to the checker with their types, names ascending.
pub type TypeStore = Vec<(String, Mutability)>;

/// The model of a `TypeStore`.
pub type StoreV = Seq<(Seq<char>, MutabilityV)>;

pub open spec fn view_store(s: Seq<(String, Mutability)>) -> StoreV {
    Seq::new(s.len(), |i: int| (s[i].0@, s[i].1@))
}

/// What checking an expression gives: its result and the store after it, or
/// nothing where the checker meets an expression it does not handle.
pub type Checked = Option<(Result<MutabilityV, TypeErrorV>, StoreV)>;

impl Mutability {
    /// The type, whatever the mutability.
    pub fn get_type(self) -> (t: TypeInfo)
        ensures
            t@ == mut_type(self@),
    {
        match self {
            Mutability::Mutable(ti) => ti,
            Mutability::Immutable(ti) => ti,
        }
    }

    /// A type result as a mutable binding; an error stays as it is.
    pub fn from_type_result(type_result: TypeResult) -> (r: MutabilityResult)
        ensures
            view_mutability_result(r) == mutable_result(view_type_result(type_result)),
    {
        match type_result {
            Ok(ti) => Ok(Mutability::Mutable(ti)),
            Err(e) => Err(e),
        }
    }

    /// The type of a value, as a mutable binding.
    pub fn from_datatype(d: &Datatype) -> (r: Mutability)
        ensures
            r@ == MutabilityV::Mutable(type_of(d@)),
    {
        Mutability::Mutable(TypeInfo::from_datatype(d))
    }
}

/// Whether the operator is `+`, `-`, `*`, `/` or `%`.
pub open spec fn is_arithmetic(k: SKind) -> bool {
    match k {
        SKind::Add | SKind::Subtract | SKind::Multiply | SKind::Divide | SKind::Modulo => true,
        _ => false,
    }
}

/// Whether the operator compares or combines truth values; its type is `Bool`.
pub open spec fn is_boolean(k: SKind) -> bool {
    match k {
        SKind::Equals | SKind::NotEquals | SKind::GreaterThan | SKind::LessThan | SKind::GreaterThanOrEqual
        | SKind::LessThanOrEqual | SKind::LogicalAnd | SKind::LogicalOr => true,
        _ => false,
    }
}

/// Whether the operator binds the value of its right side to the name on its left.
pub open spec fn is_declaring(k: SKind) -> bool {
    match k {
        SKind::VariableDeclaration | SKind::ConstDeclaration | SKind::DeclareFunction
        | SKind::StructDeclaration | SKind::TypeAssignment | SKind::FieldAssignment
        | SKind::Assignment => true,
        _ => false,
    }
}

/// The number of operands of an operator.
pub open spec fn arity(k: SKind) -> nat {
    if is_unary(k) { 1 } else { 2 }
}

/// The type of an arithmetic operator's result.
pub open spec fn arithmetic_type(k: SKind, a: TypeV, b: TypeV) -> Result<TypeV, TypeErrorV> {
    match k {
        SKind::Add => type_add(a, b),
        SKind::Subtract | SKind::Multiply => type_sub_mul(a, b),
        SKind::Divide => type_div(a, b),
        _ => type_rem(a, b),
    }
}

/// Binding `rhs` to `id`: a `let` may not hide a constant; a constant, a
/// function and a struct type may not hide anything; `:=` needs an existing
/// variable of the same type.
pub open spec fn declare(k: SKind, id: Seq<char>, rhs: MutabilityV, st: StoreV) -> (Result<MutabilityV, TypeErrorV>, StoreV) {
    let t = mut_type(rhs);
    match k {
        SKind::VariableDeclaration => match field_get(st, id) {
            Some(MutabilityV::Immutable(_)) => (Err(TypeErrorV::CanNotRedeclareConst), st),
            _ => (Ok(rhs), field_put(st, id, MutabilityV::Mutable(t))),
        },
        SKind::ConstDeclaration => match field_get(st, id) {
            Some(_) => (Err(TypeErrorV::CanNotRedeclareConst), st),
            None => (Ok(rhs), field_put(st, id, MutabilityV::Immutable(t))),
        },
        SKind::DeclareFunction => match field_get(st, id) {
            Some(_) => (Err(TypeErrorV::CanNotRedeclareFunction), st),
            None => (Ok(rhs), field_put(st, id, MutabilityV::Immutable(t))),
        },
        SKind::StructDeclaration => match field_get(st, id) {
            Some(_) => (Err(TypeErrorV::CanNotRedeclareStructType), st),
            None => (Ok(rhs), field_put(st, id, MutabilityV::Immutable(t))),
        },
        SKind::TypeAssignment | SKind::FieldAssignment => (Ok(rhs), field_put(st, id, rhs)),
        _ => match field_get(st, id) {
            Some(MutabilityV::Mutable(lt)) => if lt != t {
                (Err(TypeErrorV::TypeMismatch(lt, t)), st)
            } else {
                (Ok(rhs), field_put(st, id, MutabilityV::Mutable(t)))
            },
            Some(MutabilityV::Immutable(_)) => (Err(TypeErrorV::CanNotAssignToConstVariable), st),
            None => (Err(TypeErrorV::IdentifierDoesntExist(id)), st),
        },
    }
}

/// The type of `name[index]`: the array's own type, when `name` holds an array.
pub open spec fn array_access_type(name: AstV, st: StoreV) -> Result<MutabilityV, TypeErrorV> {
    match name {
        AstV::ValueIdentifier(id) => match field_get(st, id) {
            Some(m) => if mut_type(m) == TypeV::Array(Box::new(TypeV::Any)) {
                Ok(m)
            } else {
                Err(TypeErrorV::TypeMismatch(mut_type(m), TypeV::Array(Box::new(TypeV::Any))))
            },
            None => Err(TypeErrorV::IdentifierDoesntExist(id)),
        },
        _ => Err(TypeErrorV::LhsNotAnIdentifier),
    }
}

/// The first pair of an argument type and the parameter type at the same
/// place that differ.
pub open spec fn argument_mismatch(args: Seq<TypeV>, params: Seq<TypeV>) -> Option<(TypeV, TypeV)>
    decreases args.len(),
{
    if args.len() == 0 || params.len() == 0 {
        None
    } else if args[0] != params[0] {
        Some((args[0], params[0]))
    } else {
        argument_mismatch(args.drop_first(), params.drop_first())
    }
}

/// The type of a call of the function named by `callee` on arguments of the given types.
pub open spec fn call_type(callee: AstV, args: Seq<TypeV>, st: StoreV) -> Result<MutabilityV, TypeErrorV> {
    match callee {
        AstV::ValueIdentifier(id) => match field_get(st, id) {
            Some(m) => match mut_type(m) {
                TypeV::Function(params, ret) => match argument_mismatch(args, params) {
                    Some((a, p)) => Err(TypeErrorV::TypeMismatch(a, p)),
                    None => Ok(MutabilityV::Mutable(*ret)),
                },
                _ => Err(TypeErrorV::MalformedAST),
            },
            None => Err(TypeErrorV::IdentifierDoesntExist(id)),
        },
        _ => Err(TypeErrorV::IsNotAVariable),
    }
}

/// Checks an expression against the store of known names.
pub open spec fn check(a: AstV, st: StoreV) -> Checked
    decreases a,
{
    match a {
        AstV::Op(k, args) => if args.len() != arity(k) {
            None
        } else if is_arithmetic(k) {
            match check(args[0], st) {
                None => None,
                Some((Err(e), s1)) => Some((Err(e), s1)),
                Some((Ok(l), s1)) => match check(args[1], s1) {
                    None => None,
                    Some((Err(e), s2)) => Some((Err(e), s2)),
                    Some((Ok(r), s2)) => Some((mutable_result(arithmetic_type(k, mut_type(l), mut_type(r))), s2)),
                },
            }
        } else if is_boolean(k) {
            Some((Ok(MutabilityV::Mutable(TypeV::Bool)), st))
        } else if is_declaring(k) {
            match check(args[1], st) {
                None => None,
                Some((Err(e), s1)) => Some((Err(e), s1)),
                Some((Ok(m), s1)) => match args[0] {
                    AstV::ValueIdentifier(id) => Some(declare(k, id, m, s1)),
                    _ => Some((Err(TypeErrorV::LhsNotAnIdentifier), s1)),
                },
            }
        } else {
            match k {
                SKind::Loop => match check(args[0], st) {
                    None => None,
                    Some((Err(e), s1)) => Some((Err(e), s1)),
                    Some((Ok(_), s1)) => check(args[1], s1),
                },
                SKind::AccessArray => Some((array_access_type(args[0], st), st)),
                SKind::GetArrayLength => Some((Ok(MutabilityV::Mutable(TypeV::Number)), st)),
                SKind::Range => Some((Ok(MutabilityV::Mutable(TypeV::Array(Box::new(TypeV::Number)))), st)),
                SKind::ExecuteFn => match args[1] {
                    AstV::ExpressionList(es) => match check_args(es, st) {
                        None => None,
                        Some(Err(e)) => Some((Err(e), st)),
                        Some(Ok(types)) => Some((call_type(args[0], types, st), st)),
                    },
                    _ => Some((Err(TypeErrorV::MalformedAST), st)),
                },
                SKind::CreateStruct | SKind::AccessStructField => None,
                SKind::Print => Some((Ok(MutabilityV::Mutable(TypeV::String)), st)),
                SKind::Include => Some((Ok(MutabilityV::Mutable(TypeV::Any)), st)),
                _ => check(args[0], st),
            }
        },
        AstV::ExpressionList(l) => check_list(l, st, MutabilityV::Mutable(TypeV::Any)),
        AstV::Literal(d) => Some((Ok(MutabilityV::Mutable(type_of(d))), st)),
        AstV::ValueIdentifier(id) => Some((
            Ok(
                match field_get(st, id) {
                    Some(m) => m,
                    None => MutabilityV::Mutable(TypeV::Any),
                },
            ),
            st,
        )),
        _ => None,
    }
}

/// Checks the expressions of a list in turn; the list has the type of its
/// last expression, `Any` when empty.
pub open spec fn check_list(l: Seq<AstV>, st: StoreV, last: MutabilityV) -> Checked
    decreases l,
{
    if l.len() == 0 {
        Some((Ok(last), st))
    } else {
        match check(l[0], st) {
            None => None,
            Some((Err(e), s1)) => Some((Err(e), s1)),
            Some((Ok(m), s1)) => check_list(l.drop_first(), s1, m),
        }
    }
}

/// The types of the arguments of a call, checked in turn.
pub open spec fn check_args(es: Seq<AstV>, st: StoreV) -> Option<Result<Seq<TypeV>, TypeErrorV>>
    decreases es,
{
    if es.len() == 0 {
        Some(Ok(Seq::empty()))
    } else {
        match check(es[0], st) {
            None => None,
            Some((Err(e), _)) => Some(Err(e)),
            Some((Ok(m), s1)) => match check_args(es.drop_first(), s1) {
                None => None,
                Some(Err(e)) => Some(Err(e)),
                Some(Ok(ts)) => Some(Ok(seq![mut_type(m)] + ts)),
            },
        }
    }
}


/// `r`, with the store left as `after`, is what `c` describes.
pub open spec fn checked_as(r: Option<MutabilityResult>, after: StoreV, c: Checked) -> bool {
    match c {
        None => r is None,
        Some((res, st)) => r is Some && view_mutability_result(r->Some_0) == res && after == st,
    }
}

proof fn lemma_store_get(s: Seq<(String, Mutability)>, k: Seq<char>)
    ensures
        match raw_get(s, k) {
            Some(v) => field_get(view_store(s), k) == Some(v@),
            None => field_get(view_store(s), k) is None,
        },
    decreases s.len(),
{
    if s.len() > 0 {
        lemma_store_get(s.drop_first(), k);
        assert(view_store(s).drop_first() =~= view_store(s.drop_first()));
    }
}

proof fn lemma_store_put(s: Seq<(String, Mutability)>, k: String, v: Mutability)
    ensures
        view_store(raw_put(s, k, v)) == field_put(view_store(s), k@, v@),
    decreases s.len(),
{
    let r = raw_put(s, k, v);
    let vs = view_store(s);
    if s.len() == 0 {
        assert(view_store(r) =~= seq![(k@, v@)]);
    } else {
        assert(vs.drop_first() =~= view_store(s.drop_first()));
        if s[0].0@ == k@ {
            assert(view_store(r) =~= seq![(k@, v@)] + vs.drop_first());
        } else if seq_lt(k@, s[0].0@) {
            assert(view_store(r) =~= seq![(k@, v@)] + vs);
        } else {
            lemma_store_put(s.drop_first(), k, v);
            assert(view_store(r) =~= seq![vs[0]] + field_put(vs.drop_first(), k@, v@));
        }
    }
}

/// A copy of a binding.
pub fn copy_mutability(m: &Mutability) -> (r: Mutability)
    ensures
        r@ == m@,
{
    match m {
        Mutability::Mutable(t) => Mutability::Mutable(copy_type(t)),
        Mutability::Immutable(t) => Mutability::Immutable(copy_type(t)),
    }
}

/// A copy of a store.
pub fn copy_store(s: &TypeStore) -> (r: TypeStore)
    ensures
        view_store(r@) == view_store(s@),
{
    let mut r: TypeStore = Vec::new();
    let mut i: usize = 0;
    while i < s.len()
        invariant
            i <= s.len(),
            r@.len() == i,
            view_store(r@) =~= view_store(s@).subrange(0, i as int),
        decreases s.len() - i,
    {
        let name = copy_string(&s[i].0);
        let m = copy_mutability(&s[i].1);
        let ghost before = r@;
        r.push((name, m));
        proof {
            assert forall|j: int| 0 <= j < r@.len() implies #[trigger] view_store(r@)[j] == view_store(s@).subrange(0, i + 1)[j] by {
                if j < i {
                    assert(r@[j] == before[j]);
                    assert(view_store(before)[j] == view_store(s@).subrange(0, i as int)[j]);
                }
            }
        }
        i = i + 1;
        assert(view_store(r@) =~= view_store(s@).subrange(0, i as int));
    }
    assert(view_store(s@).subrange(0, i as int) =~= view_store(s@));
    r
}

fn arithmetic(k: SKind) -> (b: bool)
    ensures
        b == is_arithmetic(k),
{
    match k {
        SKind::Add | SKind::Subtract | SKind::Multiply | SKind::Divide | SKind::Modulo => true,
        _ => false,
    }
}

fn boolean(k: SKind) -> (b: bool)
    ensures
        b == is_boolean(k),
{
    match k {
        SKind::Equals | SKind::NotEquals | SKind::GreaterThan | SKind::LessThan | SKind::GreaterThanOrEqual
        | SKind::LessThanOrEqual | SKind::LogicalAnd | SKind::LogicalOr => true,
        _ => false,
    }
}

fn declaring(k: SKind) -> (b: bool)
    ensures
        b == is_declaring(k),
{
    match k {
        SKind::VariableDeclaration | SKind::ConstDeclaration | SKind::DeclareFunction
        | SKind::StructDeclaration | SKind::TypeAssignment | SKind::FieldAssignment
        | SKind::Assignment => true,
        _ => false,
    }
}

fn arithmetic_types(k: SKind, a: TypeInfo, b: TypeInfo) -> (r: TypeResult)
    requires
        is_arithmetic(k),
    ensures
        view_type_result(r) == arithmetic_type(k, a@, b@),
{
    match k {
        SKind::Add => a.add_types(b),
        SKind::Subtract => a.sub_types(b),
        SKind::Multiply => a.mul_types(b),
        SKind::Divide => a.div_types(b),
        _ => a.rem_types(b),
    }
}

/// Binds the checked right side to a name, following `declare`.
fn declare_x(k: SKind, id: &String, rhs: Mutability, store: &mut TypeStore) -> (r: MutabilityResult)
    requires
        is_declaring(k),
    ensures
        (view_mutability_result(r), view_store(final(store)@)) == declare(k, id@, rhs@, view_store(old(store)@)),
{
    proof {
        lemma_store_get(store@, id@);
    }
    let t = copy_mutability(&rhs).get_type();
    let existing: Option<&Mutability> = get_field(store, id);
    let verdict: Result<Mutability, TypeError> = match k {
        SKind::VariableDeclaration => match existing {
            Some(Mutability::Immutable(_)) => Err(TypeError::CanNotRedeclareConst),
            _ => Ok(Mutability::Mutable(t)),
        },
        SKind::ConstDeclaration => match existing {
            Some(_) => Err(TypeError::CanNotRedeclareConst),
            None => Ok(Mutability::Immutable(t)),
        },
        SKind::DeclareFunction => match existing {
            Some(_) => Err(TypeError::CanNotRedeclareFunction),
            None => Ok(Mutability::Immutable(t)),
        },
        SKind::StructDeclaration => match existing {
            Some(_) => Err(TypeError::CanNotRedeclareStructType),
            None => Ok(Mutability::Immutable(t)),
        },
        SKind::TypeAssignment | SKind::FieldAssignment => Ok(copy_mutability(&rhs)),
        _ => match existing {
            Some(Mutability::Mutable(lt)) => if !type_eq(lt, &t) {
                Err(TypeError::TypeMismatch(copy_type(lt), t))
            } else {
                Ok(Mutability::Mutable(t))
            },
            Some(Mutability::Immutable(_)) => Err(TypeError::CanNotAssignToConstVariable),
            None => Err(TypeError::IdentifierDoesntExist(copy_string(id))),
        },
    };
    match verdict {
        Err(e) => Err(e),
        Ok(stored) => {
            let name = copy_string(id);
            let ghost s0 = store@;
            let ghost gn = name;
            let ghost gm = stored;
            put_field(store, name, stored);
            proof {
                lemma_store_put(s0, gn, gm);
            }
            Ok(rhs)
        }
    }
}

/// The type of `name[index]`, following `array_access_type`.
fn array_access_type_x(name: &Ast, store: &TypeStore) -> (r: MutabilityResult)
    ensures
        view_mutability_result(r) == array_access_type(name@, view_store(store@)),
{
    match name {
        Ast::ValueIdentifier(id) => {
            proof {
                lemma_store_get(store@, id@);
            }
            match get_field(store, id) {
                Some(m) => {
                    let t = copy_mutability(m).get_type();
                    let any_array = TypeInfo::Array(Box::new(TypeInfo::Any));
                    assert(view_ty(TypeInfo::Any) == TypeV::Any);
                    assert(any_array@ == TypeV::Array(Box::new(TypeV::Any)));
                    if type_eq(&t, &any_array) {
                        Ok(copy_mutability(m))
                    } else {
                        Err(TypeError::TypeMismatch(t, any_array))
                    }
                }
                None => Err(TypeError::IdentifierDoesntExist(copy_string(id))),
            }
        }
        other => {
            proof {
                if let Ast::SExpr(s2) = other {
                    lemma_view_sexpr_is_op(*s2);
                }
            }
            Err(TypeError::LhsNotAnIdentifier)
        }
    }
}

/// The type of a call, following `call_type`.
fn call_type_x(callee: &Ast, args: &Vec<TypeInfo>, store: &TypeStore) -> (r: MutabilityResult)
    ensures
        view_mutability_result(r) == call_type(callee@, view_tys(args@), view_store(store@)),
{
    match callee {
        Ast::ValueIdentifier(id) => {
            proof {
                lemma_store_get(store@, id@);
            }
            match get_field(store, id) {
                Some(m) => {
                    let t = copy_mutability(m).get_type();
                    match t {
                        TypeInfo::Function { parameters, return_type } => {
                            let ghost a = view_tys(args@);
                            let ghost p = view_tys(parameters@);
                            proof {
                                crate::model::lemma_view_tys(args@);
                                crate::model::lemma_view_tys(parameters@);
                                assert(a.skip(0) =~= a);
                                assert(p.skip(0) =~= p);
                            }
                            let ghost expected = call_type(callee@, view_tys(args@), view_store(store@));
                            assert(expected == match argument_mismatch(a, p) {
                                Some((x, y)) => Err(TypeErrorV::TypeMismatch(x, y)),
                                None => Ok(MutabilityV::Mutable(view_ty(*return_type))),
                            });
                            let mut i: usize = 0;
                            while i < args.len() && i < parameters.len()
                                invariant
                                    i <= args.len(),
                                    i <= parameters.len(),
                                    expected == call_type(callee@, view_tys(args@), view_store(store@)),
                                    expected == match argument_mismatch(a, p) {
                                        Some((x, y)) => Err(TypeErrorV::TypeMismatch(x, y)),
                                        None => Ok(MutabilityV::Mutable(view_ty(*return_type))),
                                    },
                                    a == view_tys(args@),
                                    p == view_tys(parameters@),
                                    a.len() == args.len(),
                                    p.len() == parameters.len(),
                                    forall|j: int| 0 <= j < args.len() ==> #[trigger] a[j] == view_ty(args@[j]),
                                    forall|j: int| 0 <= j < parameters.len() ==> #[trigger] p[j] == view_ty(parameters@[j]),
                                    argument_mismatch(a, p) == argument_mismatch(a.skip(i as int), p.skip(i as int)),
                                decreases args.len() - i,
                            {
                                proof {
                                    assert(a.skip(i as int)[0] == a[i as int]);
                                    assert(p.skip(i as int)[0] == p[i as int]);
                                    assert(a.skip(i as int).drop_first() =~= a.skip(i + 1));
                                    assert(p.skip(i as int).drop_first() =~= p.skip(i + 1));
                                }
                                if !type_eq(&args[i], &parameters[i]) {
                                    return Err(TypeError::TypeMismatch(copy_type(&args[i]), copy_type(&parameters[i])));
                                }
                                i = i + 1;
                            }
                            proof {
                                assert(a.skip(i as int).len() == 0 || p.skip(i as int).len() == 0);
                            }
                            Ok(Mutability::Mutable(*return_type))
                        }
                        _ => Err(TypeError::MalformedAST),
                    }
                }
                None => Err(TypeError::IdentifierDoesntExist(copy_string(id))),
            }
        }
        other => {
            proof {
                if let Ast::SExpr(s2) = other {
                    lemma_view_sexpr_is_op(*s2);
                }
            }
            Err(TypeError::IsNotAVariable)
        }
    }
}

/// Checks an expression, following `check`; `None` where the checker meets
/// an expression it does not handle.
fn check_node(a: &Ast, store: &mut TypeStore) -> (r: Option<MutabilityResult>)
    ensures
        checked_as(r, view_store(final(store)@), check(a@, view_store(old(store)@))),
    decreases a,
{
    match a {
        Ast::SExpr(s) => {
            let (k, x, y) = decompose(s);
            if arithmetic(k) {
                match check_node(x, store) {
                    None => None,
                    Some(Err(e)) => Some(Err(e)),
                    Some(Ok(lm)) => match check_node(y.unwrap(), store) {
                        None => None,
                        Some(Err(e)) => Some(Err(e)),
                        Some(Ok(rm)) => Some(Mutability::from_type_result(arithmetic_types(k, lm.get_type(), rm.get_type()))),
                    },
                }
            } else if boolean(k) {
                Some(Ok(Mutability::Mutable(TypeInfo::Bool)))
            } else if declaring(k) {
                match check_node(y.unwrap(), store) {
                    None => None,
                    Some(Err(e)) => Some(Err(e)),
                    Some(Ok(m)) => match x {
                        Ast::ValueIdentifier(id) => Some(declare_x(k, id, m, store)),
                        other => {
                            proof {
                                if let Ast::SExpr(s2) = other {
                                    lemma_view_sexpr_is_op(*s2);
                                }
                            }
                            Some(Err(TypeError::LhsNotAnIdentifier))
                        }
                    },
                }
            } else {
                match k {
                    SKind::Loop => match check_node(x, store) {
                        None => None,
                        Some(Err(e)) => Some(Err(e)),
                        Some(Ok(_)) => check_node(y.unwrap(), store),
                    },
                    SKind::AccessArray => Some(array_access_type_x(x, store)),
                    SKind::GetArrayLength => Some(Ok(Mutability::Mutable(TypeInfo::Number))),
                    SKind::Range => Some(Ok(Mutability::Mutable(TypeInfo::Array(Box::new(TypeInfo::Number))))),
                    SKind::ExecuteFn => match y.unwrap() {
                        Ast::ExpressionList(es) => {
                            let mut scratch = copy_store(store);
                            match check_arguments(es, &mut scratch) {
                                None => None,
                                Some(Err(e)) => Some(Err(e)),
                                Some(Ok(types)) => Some(call_type_x(x, &types, store)),
                            }
                        }
                        other => {
                            proof {
                                if let Ast::SExpr(s2) = other {
                                    lemma_view_sexpr_is_op(*s2);
                                }
                            }
                            Some(Err(TypeError::MalformedAST))
                        }
                    },
                    SKind::CreateStruct | SKind::AccessStructField => None,
                    SKind::Print => Some(Ok(Mutability::Mutable(TypeInfo::String))),
                    SKind::Include => Some(Ok(Mutability::Mutable(TypeInfo::Any))),
                    _ => check_node(x, store),
                }
            }
        }
        Ast::ExpressionList(l) => check_sequence(l, store),
        Ast::Literal(d) => Some(Ok(Mutability::from_datatype(d))),
        Ast::ValueIdentifier(id) => {
            proof {
                lemma_store_get(store@, id@);
            }
            match get_field(store, id) {
                Some(m) => Some(Ok(copy_mutability(m))),
                None => Some(Ok(Mutability::Mutable(TypeInfo::Any))),
            }
        }
        _ => None,
    }
}

/// Checks the expressions of a list in turn, following `check_list`.
fn check_sequence(l: &Vec<Ast>, store: &mut TypeStore) -> (r: Option<MutabilityResult>)
    ensures
        checked_as(r, view_store(final(store)@), check_list(view_asts(l@), view_store(old(store)@), MutabilityV::Mutable(TypeV::Any))),
    decreases l,
{
    let ghost ls = view_asts(l@);
    let ghost whole = check_list(ls, view_store(store@), MutabilityV::Mutable(TypeV::Any));
    proof {
        lemma_view_asts(l@);
        assert(ls.skip(0) =~= ls);
    }
    let mut last = Mutability::Mutable(TypeInfo::Any);
    let mut i: usize = 0;
    while i < l.len()
        invariant
            i <= l.len(),
            ls == view_asts(l@),
            ls.len() == l.len(),
            forall|j: int| 0 <= j < l.len() ==> #[trigger] ls[j] == view_ast(l@[j]),
            whole == check_list(ls, view_store(old(store)@), MutabilityV::Mutable(TypeV::Any)),
            whole == check_list(ls.skip(i as int), view_store(store@), last@),
        decreases l.len() - i,
    {
        proof {
            assert(ls.skip(i as int)[0] == ls[i as int]);
            assert(ls.skip(i as int).drop_first() =~= ls.skip(i + 1));
        }
        match check_node(&l[i], store) {
            None => {
                return None;
            }
            Some(Err(e)) => {
                return Some(Err(e));
            }
            Some(Ok(m)) => {
                last = m;
            }
        }
        i = i + 1;
    }
    proof {
        assert(ls.skip(i as int).len() == 0);
    }
    Some(Ok(last))
}

/// The arguments' types and what checking them met, before `rest`.
pub open spec fn after_types(done: Seq<TypeV>, rest: Option<Result<Seq<TypeV>, TypeErrorV>>) -> Option<Result<Seq<TypeV>, TypeErrorV>> {
    match rest {
        Some(Ok(ts)) => Some(Ok(done + ts)),
        _ => rest,
    }
}

/// Checks the arguments of a call in turn, following `check_args`.
fn check_arguments(es: &Vec<Ast>, store: &mut TypeStore) -> (r: Option<Result<Vec<TypeInfo>, TypeError>>)
    ensures
        ({
            let c = check_args(view_asts(es@), view_store(old(store)@));
            match r {
                None => c is None,
                Some(Ok(ts)) => c == Some(Ok::<Seq<TypeV>, TypeErrorV>(view_tys(ts@))),
                Some(Err(e)) => c == Some(Err::<Seq<TypeV>, TypeErrorV>(e@)),
            }
        }),
    decreases es,
{
    let ghost ls = view_asts(es@);
    let ghost whole = check_args(ls, view_store(store@));
    proof {
        lemma_view_asts(es@);
        assert(ls.skip(0) =~= ls);
    }
    let mut types: Vec<TypeInfo> = Vec::new();
    assert(view_tys(types@) =~= Seq::<TypeV>::empty());
    let mut i: usize = 0;
    while i < es.len()
        invariant
            i <= es.len(),
            ls == view_asts(es@),
            ls.len() == es.len(),
            forall|j: int| 0 <= j < es.len() ==> #[trigger] ls[j] == view_ast(es@[j]),
            whole == check_args(ls, view_store(old(store)@)),
            whole == after_types(view_tys(types@), check_args(ls.skip(i as int), view_store(store@))),
        decreases es.len() - i,
    {
        proof {
            assert(ls.skip(i as int)[0] == ls[i as int]);
            assert(ls.skip(i as int).drop_first() =~= ls.skip(i + 1));
        }
        match check_node(&es[i], store) {
            None => {
                return None;
            }
            Some(Err(e)) => {
                return Some(Err(e));
            }
            Some(Ok(m)) => {
                let t = m.get_type();
                proof {
                    lemma_view_tys_push(types@, t);
                    let rest = check_args(ls.skip(i + 1), view_store(store@));
                    match rest {
                        Some(Ok(ts)) => {
                            assert(view_tys(types@) + (seq![t@] + ts) =~= view_tys(types@).push(t@) + ts);
                        }
                        _ => {}
                    }
                }
                types.push(t);
            }
        }
        i = i + 1;
    }
    proof {
        assert(ls.skip(i as int).len() == 0);
    }
    Some(Ok(types))
}

impl Ast {
    /// Checks the types of the program against the store of known names,
    /// which it extends. The checker handles every expression it reaches.
    pub fn check_types(&self, type_store: &mut TypeStore) -> (r: MutabilityResult)
        requires
            check(self@, view_store(old(type_store)@)) is Some,
        ensures
            view_mutability_result(r) == check(self@, view_store(old(type_store)@))->Some_0.0,
            view_store(final(type_store)@) == check(self@, view_store(old(type_store)@))->Some_0.1,
    {
        match check_node(self, type_store) {
            Some(r) => r,
            None => Err(TypeError::MalformedAST),
        }
    }

    /// Checks the types of the program, or gives `None` where the checker
    /// reaches an expression it does not handle: a struct creation, a field
    /// access, a conditional or a bare type.
    pub fn try_check_types(&self, type_store: &mut TypeStore) -> (r: Option<MutabilityResult>)
        ensures
            checked_as(r, view_store(final(type_store)@), check(self@, view_store(old(type_store)@))),
    {
        check_node(self, type_store)
    }
}

} // verus!
