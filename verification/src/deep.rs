use vstd::prelude::*;
use std::rc::Rc;
use crate::ast::{Ast, SExpression, Datatype, TypeInfo};
use crate::model::{SKind, AstV, is_unary, view_ast, view_asts, view_sexpr, view_dt, view_dts, view_dt_fields, view_ty, view_tys, view_ty_fields};

verus! {

/// `Rc::clone`: another pointer to the same allocation, so the value behind it
/// is the same.
#[verifier::external_body]
pub(crate) fn share(r: &Rc<Datatype>) -> (s: Rc<Datatype>)
    ensures
        *s == **r,
{
    Rc::clone(r)
}

/// Splits an operator into its kind and its one or two operands.
pub fn decompose(s: &SExpression) -> (r: (SKind, &Ast, Option<&Ast>))
    ensures
        r.2.is_some() == !is_unary(r.0),
        is_unary(r.0) ==> view_sexpr(*s) == AstV::Op(r.0, seq![view_ast(*r.1)]),
        !is_unary(r.0) ==> view_sexpr(*s) == AstV::Op(r.0, seq![view_ast(*r.1), view_ast(*r.2.unwrap())]),
        decreases_to!(*s => *r.1),
        r.2 is Some ==> decreases_to!(*s => *r.2.unwrap()),
{
    match s {
        SExpression::Add(a, b) => (SKind::Add, &**a, Some(&**b)),
        SExpression::Subtract(a, b) => (SKind::Subtract, &**a, Some(&**b)),
        SExpression::Multiply(a, b) => (SKind::Multiply, &**a, Some(&**b)),
        SExpression::Divide(a, b) => (SKind::Divide, &**a, Some(&**b)),
        SExpression::Modulo(a, b) => (SKind::Modulo, &**a, Some(&**b)),
        SExpression::Equals(a, b) => (SKind::Equals, &**a, Some(&**b)),
        SExpression::NotEquals(a, b) => (SKind::NotEquals, &**a, Some(&**b)),
        SExpression::GreaterThan(a, b) => (SKind::GreaterThan, &**a, Some(&**b)),
        SExpression::LessThan(a, b) => (SKind::LessThan, &**a, Some(&**b)),
        SExpression::GreaterThanOrEqual(a, b) => (SKind::GreaterThanOrEqual, &**a, Some(&**b)),
        SExpression::LessThanOrEqual(a, b) => (SKind::LessThanOrEqual, &**a, Some(&**b)),
        SExpression::LogicalAnd(a, b) => (SKind::LogicalAnd, &**a, Some(&**b)),
        SExpression::LogicalOr(a, b) => (SKind::LogicalOr, &**a, Some(&**b)),
        SExpression::Print(a) => (SKind::Print, &**a, None),
        SExpression::Include(a) => (SKind::Include, &**a, None),
        SExpression::Invert(a) => (SKind::Invert, &**a, None),
        SExpression::Negate(a) => (SKind::Negate, &**a, None),
        SExpression::Increment(a) => (SKind::Increment, &**a, None),
        SExpression::Decrement(a) => (SKind::Decrement, &**a, None),
        SExpression::VariableDeclaration { identifier: a, ast: b } => (SKind::VariableDeclaration, &**a, Some(&**b)),
        SExpression::ConstDeclaration { identifier: a, ast: b } => (SKind::ConstDeclaration, &**a, Some(&**b)),
        SExpression::DeclareFunction { identifier: a, function_datatype: b } => (SKind::DeclareFunction, &**a, Some(&**b)),
        SExpression::Assignment { identifier: a, ast: b } => (SKind::Assignment, &**a, Some(&**b)),
        SExpression::TypeAssignment { identifier: a, type_info: b } => (SKind::TypeAssignment, &**a, Some(&**b)),
        SExpression::FieldAssignment { identifier: a, ast: b } => (SKind::FieldAssignment, &**a, Some(&**b)),
        SExpression::CreateStruct { identifier: a, struct_datatype: b } => (SKind::CreateStruct, &**a, Some(&**b)),
        SExpression::Loop { conditional: a, body: b } => (SKind::Loop, &**a, Some(&**b)),
        SExpression::AccessArray { identifier: a, index: b } => (SKind::AccessArray, &**a, Some(&**b)),
        SExpression::GetArrayLength(a) => (SKind::GetArrayLength, &**a, None),
        SExpression::Range { start: a, end: b } => (SKind::Range, &**a, Some(&**b)),
        SExpression::StructDeclaration { identifier: a, struct_type_info: b } => (SKind::StructDeclaration, &**a, Some(&**b)),
        SExpression::AccessStructField { identifier: a, field_identifier: b } => (SKind::AccessStructField, &**a, Some(&**b)),
        SExpression::ExecuteFn { identifier: a, parameters: b } => (SKind::ExecuteFn, &**a, Some(&**b)),
    }
}

/// Builds the operator of the given kind over one operand.
pub fn rebuild_unary(k: SKind, a: Ast) -> (s: SExpression)
    requires
        is_unary(k),
    ensures
        view_sexpr(s) == AstV::Op(k, seq![view_ast(a)]),
{
    let a = Box::new(a);
    match k {
        SKind::Print => SExpression::Print(a),
        SKind::Include => SExpression::Include(a),
        SKind::Invert => SExpression::Invert(a),
        SKind::Negate => SExpression::Negate(a),
        SKind::Increment => SExpression::Increment(a),
        SKind::Decrement => SExpression::Decrement(a),
        _ => SExpression::GetArrayLength(a),
    }
}

/// Builds the operator of the given kind over two operands.
pub fn rebuild_binary(k: SKind, a: Ast, b: Ast) -> (s: SExpression)
    requires
        !is_unary(k),
    ensures
        view_sexpr(s) == AstV::Op(k, seq![view_ast(a), view_ast(b)]),
{
    let a = Box::new(a);
    let b = Box::new(b);
    match k {
        SKind::Add => SExpression::Add(a, b),
        SKind::Subtract => SExpression::Subtract(a, b),
        SKind::Multiply => SExpression::Multiply(a, b),
        SKind::Divide => SExpression::Divide(a, b),
        SKind::Modulo => SExpression::Modulo(a, b),
        SKind::Equals => SExpression::Equals(a, b),
        SKind::NotEquals => SExpression::NotEquals(a, b),
        SKind::GreaterThan => SExpression::GreaterThan(a, b),
        SKind::LessThan => SExpression::LessThan(a, b),
        SKind::GreaterThanOrEqual => SExpression::GreaterThanOrEqual(a, b),
        SKind::LessThanOrEqual => SExpression::LessThanOrEqual(a, b),
        SKind::LogicalAnd => SExpression::LogicalAnd(a, b),
        SKind::LogicalOr => SExpression::LogicalOr(a, b),
        SKind::VariableDeclaration => SExpression::VariableDeclaration { identifier: a, ast: b },
        SKind::ConstDeclaration => SExpression::ConstDeclaration { identifier: a, ast: b },
        SKind::DeclareFunction => SExpression::DeclareFunction { identifier: a, function_datatype: b },
        SKind::Assignment => SExpression::Assignment { identifier: a, ast: b },
        SKind::TypeAssignment => SExpression::TypeAssignment { identifier: a, type_info: b },
        SKind::FieldAssignment => SExpression::FieldAssignment { identifier: a, ast: b },
        SKind::CreateStruct => SExpression::CreateStruct { identifier: a, struct_datatype: b },
        SKind::Loop => SExpression::Loop { conditional: a, body: b },
        SKind::AccessArray => SExpression::AccessArray { identifier: a, index: b },
        SKind::Range => SExpression::Range { start: a, end: b },
        SKind::StructDeclaration => SExpression::StructDeclaration { identifier: a, struct_type_info: b },
        SKind::AccessStructField => SExpression::AccessStructField { identifier: a, field_identifier: b },
        _ => SExpression::ExecuteFn { identifier: a, parameters: b },
    }
}

/// A copy of a string with the same characters.
pub fn copy_string(s: &String) -> (r: String)
    ensures
        r@ == s@,
{
    s.clone()
}

/// A copy of an expression: an equal model, independent storage.
pub fn copy_ast(a: &Ast) -> (r: Ast)
    ensures
        r@ == a@,
    decreases a,
{
    match a {
        Ast::SExpr(s) => {
            let (k, x, y) = decompose(s);
            let x2 = copy_ast(x);
            match y {
                Some(y) => {
                    let y2 = copy_ast(y);
                    Ast::SExpr(rebuild_binary(k, x2, y2))
                }
                None => Ast::SExpr(rebuild_unary(k, x2)),
            }
        }
        Ast::ExpressionList(v) => Ast::ExpressionList(copy_asts(v)),
        Ast::Conditional { condition, true_expr, false_expr } => {
            let c = copy_ast(condition);
            let t = copy_ast(true_expr);
            let f = match false_expr {
                Some(e) => Some(Box::new(copy_ast(e))),
                None => None,
            };
            Ast::Conditional { condition: Box::new(c), true_expr: Box::new(t), false_expr: f }
        }
        Ast::Literal(d) => Ast::Literal(copy_datatype(d)),
        Ast::Type(t) => Ast::Type(copy_type(t)),
        Ast::ValueIdentifier(s) => Ast::ValueIdentifier(copy_string(s)),
    }
}

/// The model of two lists of expressions put together.
pub proof fn lemma_view_asts_concat(a: Seq<Ast>, b: Seq<Ast>)
    ensures
        view_asts(a + b) == view_asts(a) + view_asts(b),
    decreases a.len(),
{
    if a.len() == 0 {
        assert(a + b =~= b);
        assert(view_asts(a) =~= Seq::<AstV>::empty());
        assert(view_asts(a) + view_asts(b) =~= view_asts(b));
    } else {
        lemma_view_asts_concat(a.drop_first(), b);
        assert((a + b).drop_first() =~= a.drop_first() + b);
        assert((a + b)[0] == a[0]);
        assert(view_asts(a + b) =~= view_asts(a) + view_asts(b));
    }
}

pub proof fn lemma_view_asts_push(s: Seq<Ast>, a: Ast)
    ensures
        view_asts(s.push(a)) == view_asts(s).push(view_ast(a)),
    decreases s.len(),
{
    if s.len() == 0 {
        assert(s.push(a).drop_first() =~= s);
        assert(view_asts(s.push(a)) =~= view_asts(s).push(view_ast(a)));
    } else {
        assert(s.push(a).drop_first() =~= s.drop_first().push(a));
        lemma_view_asts_push(s.drop_first(), a);
        assert(view_asts(s.push(a)) =~= view_asts(s).push(view_ast(a)));
    }
}

pub fn copy_asts(v: &Vec<Ast>) -> (r: Vec<Ast>)
    ensures
        view_asts(r@) == view_asts(v@),
    decreases v,
{
    let mut r: Vec<Ast> = Vec::new();
    let mut i: usize = 0;
    while i < v.len()
        invariant
            i <= v.len(),
            view_asts(r@) == view_asts(v@.subrange(0, i as int)),
        decreases v.len() - i,
    {
        let c = copy_ast(&v[i]);
        proof {
            lemma_view_asts_push(r@, c);
            lemma_view_asts_push(v@.subrange(0, i as int), v@[i as int]);
            assert(v@.subrange(0, i as int).push(v@[i as int]) =~= v@.subrange(0, i + 1));
        }
        r.push(c);
        i = i + 1;
    }
    assert(v@.subrange(0, i as int) =~= v@);
    r
}

pub fn copy_datatype(d: &Datatype) -> (r: Datatype)
    ensures
        r@ == d@,
    decreases d,
{
    match d {
        Datatype::Number(n) => Datatype::Number(*n),
        Datatype::String(s) => Datatype::String(copy_string(s)),
        Datatype::Array { value, type_ } => Datatype::Array {
            value: copy_shared(value),
            type_: copy_type(type_),
        },
        Datatype::Bool(b) => Datatype::Bool(*b),
        Datatype::Nothing => Datatype::Nothing,
        Datatype::Function { parameters, body, return_type } => Datatype::Function {
            parameters: Box::new(copy_ast(parameters)),
            body: Box::new(copy_ast(body)),
            return_type: copy_type(return_type),
        },
        Datatype::Struct { map } => Datatype::Struct { map: copy_dt_fields(map) },
        Datatype::StructType { identifier, type_information } => Datatype::StructType {
            identifier: copy_string(identifier),
            type_information: copy_type(type_information),
        },
    }
}

pub proof fn lemma_view_dts_push(s: Seq<Rc<Datatype>>, a: Rc<Datatype>)
    ensures
        view_dts(s.push(a)) == view_dts(s).push(view_dt(*a)),
    decreases s.len(),
{
    assert(s.push(a).drop_first() =~= if s.len() == 0 { s } else { s.drop_first().push(a) });
    if s.len() > 0 {
        lemma_view_dts_push(s.drop_first(), a);
    }
    assert(view_dts(s.push(a)) =~= view_dts(s).push(view_dt(*a)));
}

/// Shares the elements of an array: the new vector points to the same values.
pub fn copy_shared(v: &Vec<Rc<Datatype>>) -> (r: Vec<Rc<Datatype>>)
    ensures
        view_dts(r@) == view_dts(v@),
{
    let mut r: Vec<Rc<Datatype>> = Vec::new();
    let mut i: usize = 0;
    while i < v.len()
        invariant
            i <= v.len(),
            view_dts(r@) == view_dts(v@.subrange(0, i as int)),
        decreases v.len() - i,
    {
        let c = share(&v[i]);
        proof {
            lemma_view_dts_push(r@, c);
            lemma_view_dts_push(v@.subrange(0, i as int), v@[i as int]);
            assert(v@.subrange(0, i as int).push(v@[i as int]) =~= v@.subrange(0, i + 1));
        }
        r.push(c);
        i = i + 1;
    }
    assert(v@.subrange(0, i as int) =~= v@);
    r
}

pub proof fn lemma_view_dt_fields_push(s: Seq<(String, Datatype)>, a: (String, Datatype))
    ensures
        view_dt_fields(s.push(a)) == view_dt_fields(s).push((a.0@, view_dt(a.1))),
    decreases s.len(),
{
    assert(s.push(a).drop_first() =~= if s.len() == 0 { s } else { s.drop_first().push(a) });
    if s.len() > 0 {
        lemma_view_dt_fields_push(s.drop_first(), a);
    }
    assert(view_dt_fields(s.push(a)) =~= view_dt_fields(s).push((a.0@, view_dt(a.1))));
}

pub fn copy_dt_fields(v: &Vec<(String, Datatype)>) -> (r: Vec<(String, Datatype)>)
    ensures
        view_dt_fields(r@) == view_dt_fields(v@),
        r@.len() == v@.len(),
        forall|j: int| 0 <= j < v@.len() ==> #[trigger] r@[j].0@ == v@[j].0@,
    decreases v,
{
    let mut r: Vec<(String, Datatype)> = Vec::new();
    let mut i: usize = 0;
    while i < v.len()
        invariant
            i <= v.len(),
            r@.len() == i,
            forall|j: int| 0 <= j < i ==> #[trigger] r@[j].0@ == v@[j].0@,
            view_dt_fields(r@) == view_dt_fields(v@.subrange(0, i as int)),
        decreases v.len() - i,
    {
        let c = (copy_string(&v[i].0), copy_datatype(&v[i].1));
        proof {
            lemma_view_dt_fields_push(r@, c);
            lemma_view_dt_fields_push(v@.subrange(0, i as int), v@[i as int]);
            assert(v@.subrange(0, i as int).push(v@[i as int]) =~= v@.subrange(0, i + 1));
        }
        r.push(c);
        i = i + 1;
    }
    assert(v@.subrange(0, i as int) =~= v@);
    r
}

pub fn copy_type(t: &TypeInfo) -> (r: TypeInfo)
    ensures
        r@ == t@,
    decreases t,
{
    match t {
        TypeInfo::Number => TypeInfo::Number,
        TypeInfo::Float => TypeInfo::Float,
        TypeInfo::String => TypeInfo::String,
        TypeInfo::Array(b) => TypeInfo::Array(Box::new(copy_type(b))),
        TypeInfo::Bool => TypeInfo::Bool,
        TypeInfo::Nothing => TypeInfo::Nothing,
        TypeInfo::Function { parameters, return_type } => TypeInfo::Function {
            parameters: copy_types(parameters),
            return_type: Box::new(copy_type(return_type)),
        },
        TypeInfo::Struct { map } => TypeInfo::Struct { map: copy_ty_fields(map) },
        TypeInfo::StructType { identifier } => TypeInfo::StructType { identifier: copy_string(identifier) },
        TypeInfo::Any => TypeInfo::Any,
    }
}

pub proof fn lemma_view_tys_push(s: Seq<TypeInfo>, a: TypeInfo)
    ensures
        view_tys(s.push(a)) == view_tys(s).push(view_ty(a)),
    decreases s.len(),
{
    assert(s.push(a).drop_first() =~= if s.len() == 0 { s } else { s.drop_first().push(a) });
    if s.len() > 0 {
        lemma_view_tys_push(s.drop_first(), a);
    }
    assert(view_tys(s.push(a)) =~= view_tys(s).push(view_ty(a)));
}

pub fn copy_types(v: &Vec<TypeInfo>) -> (r: Vec<TypeInfo>)
    ensures
        view_tys(r@) == view_tys(v@),
    decreases v,
{
    let mut r: Vec<TypeInfo> = Vec::new();
    let mut i: usize = 0;
    while i < v.len()
        invariant
            i <= v.len(),
            view_tys(r@) == view_tys(v@.subrange(0, i as int)),
        decreases v.len() - i,
    {
        let c = copy_type(&v[i]);
        proof {
            lemma_view_tys_push(r@, c);
            lemma_view_tys_push(v@.subrange(0, i as int), v@[i as int]);
            assert(v@.subrange(0, i as int).push(v@[i as int]) =~= v@.subrange(0, i + 1));
        }
        r.push(c);
        i = i + 1;
    }
    assert(v@.subrange(0, i as int) =~= v@);
    r
}

pub proof fn lemma_view_ty_fields_push(s: Seq<(String, TypeInfo)>, a: (String, TypeInfo))
    ensures
        view_ty_fields(s.push(a)) == view_ty_fields(s).push((a.0@, view_ty(a.1))),
    decreases s.len(),
{
    assert(s.push(a).drop_first() =~= if s.len() == 0 { s } else { s.drop_first().push(a) });
    if s.len() > 0 {
        lemma_view_ty_fields_push(s.drop_first(), a);
    }
    assert(view_ty_fields(s.push(a)) =~= view_ty_fields(s).push((a.0@, view_ty(a.1))));
}

pub fn copy_ty_fields(v: &Vec<(String, TypeInfo)>) -> (r: Vec<(String, TypeInfo)>)
    ensures
        view_ty_fields(r@) == view_ty_fields(v@),
        r@.len() == v@.len(),
        forall|j: int| 0 <= j < v@.len() ==> #[trigger] r@[j].0@ == v@[j].0@,
    decreases v,
{
    let mut r: Vec<(String, TypeInfo)> = Vec::new();
    let mut i: usize = 0;
    while i < v.len()
        invariant
            i <= v.len(),
            r@.len() == i,
            forall|j: int| 0 <= j < i ==> #[trigger] r@[j].0@ == v@[j].0@,
            view_ty_fields(r@) == view_ty_fields(v@.subrange(0, i as int)),
        decreases v.len() - i,
    {
        let c = (copy_string(&v[i].0), copy_type(&v[i].1));
        proof {
            lemma_view_ty_fields_push(r@, c);
            lemma_view_ty_fields_push(v@.subrange(0, i as int), v@[i as int]);
            assert(v@.subrange(0, i as int).push(v@[i as int]) =~= v@.subrange(0, i + 1));
        }
        r.push(c);
        i = i + 1;
    }
    assert(v@.subrange(0, i as int) =~= v@);
    r
}

} // verus!
