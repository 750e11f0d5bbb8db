use vstd::prelude::*;
use std::rc::Rc;
use crate::ast::{Ast, Datatype, TypeInfo};
use crate::model::{view_ast, view_asts, view_sexpr, view_dt, view_dts, view_dt_fields, view_ty, view_tys, view_ty_fields, lemma_view_asts, lemma_view_dts, lemma_view_dt_fields, lemma_view_tys, lemma_view_ty_fields, lemma_view_sexpr_is_op};
use crate::deep::decompose;

verus! {

/// Whether two expressions have the same model.
pub fn ast_eq(a: &Ast, b: &Ast) -> (r: bool)
    ensures
        r == (a@ == b@),
    decreases a,
{
    match (a, b) {
        (Ast::SExpr(s), Ast::SExpr(t)) => {
            let (k1, x1, y1) = decompose(s);
            let (k2, x2, y2) = decompose(t);
            if k1 != k2 {
                return false;
            }
            let first = ast_eq(x1, x2);
            if !first {
                assert(view_sexpr(*s)->Op_1[0] != view_sexpr(*t)->Op_1[0]);
                return false;
            }
            match (y1, y2) {
                (Some(y1), Some(y2)) => {
                    let second = ast_eq(y1, y2);
                    if !second {
                        assert(view_sexpr(*s)->Op_1[1] != view_sexpr(*t)->Op_1[1]);
                    } else {
                        assert(view_sexpr(*s)->Op_1 =~= view_sexpr(*t)->Op_1);
                    }
                    second
                }
                _ => {
                    assert(view_sexpr(*s)->Op_1 =~= view_sexpr(*t)->Op_1);
                    true
                }
            }
        }
        (Ast::ExpressionList(v), Ast::ExpressionList(w)) => asts_eq(v, w),
        (
            Ast::Conditional { condition: c1, true_expr: t1, false_expr: f1 },
            Ast::Conditional { condition: c2, true_expr: t2, false_expr: f2 },
        ) => {
            if !ast_eq(c1, c2) {
                return false;
            }
            if !ast_eq(t1, t2) {
                return false;
            }
            match (f1, f2) {
                (Some(e1), Some(e2)) => ast_eq(e1, e2),
                (None, None) => true,
                _ => false,
            }
        }
        (Ast::Literal(d1), Ast::Literal(d2)) => datatype_eq(d1, d2),
        (Ast::Type(t1), Ast::Type(t2)) => type_eq(t1, t2),
        (Ast::ValueIdentifier(s1), Ast::ValueIdentifier(s2)) => *s1 == *s2,
        _ => {
            proof {
                if let Ast::SExpr(s) = a {
                    lemma_view_sexpr_is_op(*s);
                }
                if let Ast::SExpr(t) = b {
                    lemma_view_sexpr_is_op(*t);
                }
            }
            false
        }
    }
}

/// Whether two lists of expressions have the same model.
pub fn asts_eq(v: &Vec<Ast>, w: &Vec<Ast>) -> (r: bool)
    ensures
        r == (view_asts(v@) == view_asts(w@)),
    decreases v,
{
    proof {
        lemma_view_asts(v@);
        lemma_view_asts(w@);
    }
    if v.len() != w.len() {
        return false;
    }
    let mut i: usize = 0;
    while i < v.len()
        invariant
            i <= v.len(),
            v.len() == w.len(),
            view_asts(v@).len() == v@.len(),
            view_asts(w@).len() == w@.len(),
            forall|j: int| 0 <= j < v@.len() ==> #[trigger] view_asts(v@)[j] == view_ast(v@[j]),
            forall|j: int| 0 <= j < w@.len() ==> #[trigger] view_asts(w@)[j] == view_ast(w@[j]),
            forall|j: int| 0 <= j < i ==> view_ast(#[trigger] v@[j]) == view_ast(w@[j]),
        decreases v.len() - i,
    {
        if !ast_eq(&v[i], &w[i]) {
            assert(view_asts(v@)[i as int] != view_asts(w@)[i as int]);
            return false;
        }
        i = i + 1;
    }
    assert(view_asts(v@) =~= view_asts(w@));
    true
}

/// Whether two values have the same model.
pub fn datatype_eq(a: &Datatype, b: &Datatype) -> (r: bool)
    ensures
        r == (a@ == b@),
    decreases a,
{
    match (a, b) {
        (Datatype::Number(x), Datatype::Number(y)) => *x == *y,
        (Datatype::String(x), Datatype::String(y)) => *x == *y,
        (Datatype::Array { value: v1, type_: t1 }, Datatype::Array { value: v2, type_: t2 }) => {
            if !type_eq(t1, t2) {
                return false;
            }
            shared_eq(v1, v2)
        }
        (Datatype::Bool(x), Datatype::Bool(y)) => *x == *y,
        (Datatype::Nothing, Datatype::Nothing) => true,
        (
            Datatype::Function { parameters: p1, body: b1, return_type: r1 },
            Datatype::Function { parameters: p2, body: b2, return_type: r2 },
        ) => {
            if !ast_eq(p1, p2) {
                return false;
            }
            if !ast_eq(b1, b2) {
                return false;
            }
            type_eq(r1, r2)
        }
        (Datatype::Struct { map: m1 }, Datatype::Struct { map: m2 }) => dt_fields_eq(m1, m2),
        (
            Datatype::StructType { identifier: i1, type_information: t1 },
            Datatype::StructType { identifier: i2, type_information: t2 },
        ) => {
            if *i1 != *i2 {
                return false;
            }
            type_eq(t1, t2)
        }
        _ => false,
    }
}

/// Whether two arrays of shared values hold values with the same models.
pub fn shared_eq(v: &Vec<Rc<Datatype>>, w: &Vec<Rc<Datatype>>) -> (r: bool)
    ensures
        r == (view_dts(v@) == view_dts(w@)),
    decreases v,
{
    proof {
        lemma_view_dts(v@);
        lemma_view_dts(w@);
    }
    if v.len() != w.len() {
        return false;
    }
    let mut i: usize = 0;
    while i < v.len()
        invariant
            i <= v.len(),
            v.len() == w.len(),
            view_dts(v@).len() == v@.len(),
            view_dts(w@).len() == w@.len(),
            forall|j: int| 0 <= j < v@.len() ==> #[trigger] view_dts(v@)[j] == view_dt(*v@[j]),
            forall|j: int| 0 <= j < w@.len() ==> #[trigger] view_dts(w@)[j] == view_dt(*w@[j]),
            forall|j: int| 0 <= j < i ==> view_dt(*#[trigger] v@[j]) == view_dt(*w@[j]),
        decreases v.len() - i,
    {
        if !datatype_eq(&*v[i], &*w[i]) {
            assert(view_dts(v@)[i as int] != view_dts(w@)[i as int]);
            return false;
        }
        i = i + 1;
    }
    assert(view_dts(v@) =~= view_dts(w@));
    true
}

/// Whether two field lists have the same models, field by field.
pub fn dt_fields_eq(v: &Vec<(String, Datatype)>, w: &Vec<(String, Datatype)>) -> (r: bool)
    ensures
        r == (view_dt_fields(v@) == view_dt_fields(w@)),
    decreases v,
{
    proof {
        lemma_view_dt_fields(v@);
        lemma_view_dt_fields(w@);
    }
    if v.len() != w.len() {
        return false;
    }
    let mut i: usize = 0;
    while i < v.len()
        invariant
            i <= v.len(),
            v.len() == w.len(),
            view_dt_fields(v@).len() == v@.len(),
            view_dt_fields(w@).len() == w@.len(),
            forall|j: int| 0 <= j < v@.len() ==> #[trigger] view_dt_fields(v@)[j] == (v@[j].0@, view_dt(v@[j].1)),
            forall|j: int| 0 <= j < w@.len() ==> #[trigger] view_dt_fields(w@)[j] == (w@[j].0@, view_dt(w@[j].1)),
            forall|j: int| 0 <= j < i ==> #[trigger] view_dt_fields(v@)[j] == view_dt_fields(w@)[j],
        decreases v.len() - i,
    {
        if v[i].0 != w[i].0 {
            assert(view_dt_fields(v@)[i as int] != view_dt_fields(w@)[i as int]);
            return false;
        }
        if !datatype_eq(&v[i].1, &w[i].1) {
            assert(view_dt_fields(v@)[i as int] != view_dt_fields(w@)[i as int]);
            return false;
        }
        i = i + 1;
    }
    assert(view_dt_fields(v@) =~= view_dt_fields(w@));
    true
}

/// Whether two types have the same model.
pub fn type_eq(a: &TypeInfo, b: &TypeInfo) -> (r: bool)
    ensures
        r == (a@ == b@),
    decreases a,
{
    match (a, b) {
        (TypeInfo::Number, TypeInfo::Number) => true,
        (TypeInfo::Float, TypeInfo::Float) => true,
        (TypeInfo::String, TypeInfo::String) => true,
        (TypeInfo::Array(x), TypeInfo::Array(y)) => type_eq(x, y),
        (TypeInfo::Bool, TypeInfo::Bool) => true,
        (TypeInfo::Nothing, TypeInfo::Nothing) => true,
        (
            TypeInfo::Function { parameters: p1, return_type: r1 },
            TypeInfo::Function { parameters: p2, return_type: r2 },
        ) => {
            if !types_eq(p1, p2) {
                return false;
            }
            type_eq(r1, r2)
        }
        (TypeInfo::Struct { map: m1 }, TypeInfo::Struct { map: m2 }) => ty_fields_eq(m1, m2),
        (TypeInfo::StructType { identifier: i1 }, TypeInfo::StructType { identifier: i2 }) => *i1 == *i2,
        (TypeInfo::Any, TypeInfo::Any) => true,
        _ => false,
    }
}

/// Whether two lists of types have the same models.
pub fn types_eq(v: &Vec<TypeInfo>, w: &Vec<TypeInfo>) -> (r: bool)
    ensures
        r == (view_tys(v@) == view_tys(w@)),
    decreases v,
{
    proof {
        lemma_view_tys(v@);
        lemma_view_tys(w@);
    }
    if v.len() != w.len() {
        return false;
    }
    let mut i: usize = 0;
    while i < v.len()
        invariant
            i <= v.len(),
            v.len() == w.len(),
            view_tys(v@).len() == v@.len(),
            view_tys(w@).len() == w@.len(),
            forall|j: int| 0 <= j < v@.len() ==> #[trigger] view_tys(v@)[j] == view_ty(v@[j]),
            forall|j: int| 0 <= j < w@.len() ==> #[trigger] view_tys(w@)[j] == view_ty(w@[j]),
            forall|j: int| 0 <= j < i ==> view_ty(#[trigger] v@[j]) == view_ty(w@[j]),
        decreases v.len() - i,
    {
        if !type_eq(&v[i], &w[i]) {
            assert(view_tys(v@)[i as int] != view_tys(w@)[i as int]);
            return false;
        }
        i = i + 1;
    }
    assert(view_tys(v@) =~= view_tys(w@));
    true
}

/// Whether two field-type lists have the same models, field by field.
pub fn ty_fields_eq(v: &Vec<(String, TypeInfo)>, w: &Vec<(String, TypeInfo)>) -> (r: bool)
    ensures
        r == (view_ty_fields(v@) == view_ty_fields(w@)),
    decreases v,
{
    proof {
        lemma_view_ty_fields(v@);
        lemma_view_ty_fields(w@);
    }
    if v.len() != w.len() {
        return false;
    }
    let mut i: usize = 0;
    while i < v.len()
        invariant
            i <= v.len(),
            v.len() == w.len(),
            view_ty_fields(v@).len() == v@.len(),
            view_ty_fields(w@).len() == w@.len(),
            forall|j: int| 0 <= j < v@.len() ==> #[trigger] view_ty_fields(v@)[j] == (v@[j].0@, view_ty(v@[j].1)),
            forall|j: int| 0 <= j < w@.len() ==> #[trigger] view_ty_fields(w@)[j] == (w@[j].0@, view_ty(w@[j].1)),
            forall|j: int| 0 <= j < i ==> #[trigger] view_ty_fields(v@)[j] == view_ty_fields(w@)[j],
        decreases v.len() - i,
    {
        if v[i].0 != w[i].0 {
            assert(view_ty_fields(v@)[i as int] != view_ty_fields(w@)[i as int]);
            return false;
        }
        if !type_eq(&v[i].1, &w[i].1) {
            assert(view_ty_fields(v@)[i as int] != view_ty_fields(w@)[i as int]);
            return false;
        }
        i = i + 1;
    }
    assert(view_ty_fields(v@) =~= view_ty_fields(w@));
    true
}

} // verus!
