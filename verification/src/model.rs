use vstd::prelude::*;
use crate::ast::{Ast, SExpression, Datatype, TypeInfo};

verus! {

/// The operator of an `SExpression`, without its operands.
#[derive(Debug, Clone, Copy, PartialEq, Eq, Structural)]
pub enum SKind {
    Add,
    Subtract,
    Multiply,
    Divide,
    Modulo,
    Equals,
    NotEquals,
    GreaterThan,
    LessThan,
    GreaterThanOrEqual,
    LessThanOrEqual,
    LogicalAnd,
    LogicalOr,
    Print,
    Include,
    Invert,
    Negate,
    Increment,
    Decrement,
    VariableDeclaration,
    ConstDeclaration,
    DeclareFunction,
    Assignment,
    TypeAssignment,
    FieldAssignment,
    CreateStruct,
    Loop,
    AccessArray,
    GetArrayLength,
    Range,
    StructDeclaration,
    AccessStructField,
    ExecuteFn,
}

/// Whether an operator of this kind holds a single operand.
pub open spec fn is_unary(k: SKind) -> bool {
    match k {
        SKind::Print | SKind::Include | SKind::Invert | SKind::Negate | SKind::Increment
        | SKind::Decrement | SKind::GetArrayLength => true,
        _ => false,
    }
}

/// The mathematical model of an `Ast`: names are character sequences and an
/// operator is its kind together with the sequence of its operands.
pub ghost enum AstV {
    Op(SKind, Seq<AstV>),
    ExpressionList(Seq<AstV>),
    Conditional(Box<AstV>, Box<AstV>, Option<Box<AstV>>),
    Literal(DatatypeV),
    Type(TypeV),
    ValueIdentifier(Seq<char>),
}

/// The mathematical model of a `Datatype`.
pub ghost enum DatatypeV {
    Number(i32),
    String(Seq<char>),
    Array(Seq<DatatypeV>, TypeV),
    Bool(bool),
    Nothing,
    Function(Box<AstV>, Box<AstV>, TypeV),
    Struct(Seq<(Seq<char>, DatatypeV)>),
    StructType(Seq<char>, TypeV),
}

/// The mathematical model of a `TypeInfo`.
pub ghost enum TypeV {
    Number,
    Float,
    String,
    Array(Box<TypeV>),
    Bool,
    Nothing,
    Function(Seq<TypeV>, Box<TypeV>),
    Struct(Seq<(Seq<char>, TypeV)>),
    StructType(Seq<char>),
    Any,
}

pub open spec fn view_ast(a: Ast) -> AstV
    decreases a,
{
    match a {
        Ast::SExpr(s) => view_sexpr(s),
        Ast::ExpressionList(v) => AstV::ExpressionList(view_asts(v@)),
        Ast::Conditional { condition, true_expr, false_expr } => AstV::Conditional(
            Box::new(view_ast(*condition)),
            Box::new(view_ast(*true_expr)),
            match false_expr {
                Some(e) => Some(Box::new(view_ast(*e))),
                None => None,
            },
        ),
        Ast::Literal(d) => AstV::Literal(view_dt(d)),
        Ast::Type(t) => AstV::Type(view_ty(t)),
        Ast::ValueIdentifier(s) => AstV::ValueIdentifier(s@),
    }
}

pub open spec fn view_asts(s: Seq<Ast>) -> Seq<AstV>
    decreases s,
{
    if s.len() == 0 {
        Seq::empty()
    } else {
        seq![view_ast(s[0])] + view_asts(s.drop_first())
    }
}

pub open spec fn op1(k: SKind, a: Box<Ast>) -> AstV {
    AstV::Op(k, seq![view_ast(*a)])
}

pub open spec fn op2(k: SKind, a: Box<Ast>, b: Box<Ast>) -> AstV {
    AstV::Op(k, seq![view_ast(*a), view_ast(*b)])
}

pub open spec fn view_sexpr(s: SExpression) -> AstV
    decreases s,
{
    match s {
        SExpression::Add(a, b) => AstV::Op(SKind::Add, seq![view_ast(*a), view_ast(*b)]),
        SExpression::Subtract(a, b) => AstV::Op(SKind::Subtract, seq![view_ast(*a), view_ast(*b)]),
        SExpression::Multiply(a, b) => AstV::Op(SKind::Multiply, seq![view_ast(*a), view_ast(*b)]),
        SExpression::Divide(a, b) => AstV::Op(SKind::Divide, seq![view_ast(*a), view_ast(*b)]),
        SExpression::Modulo(a, b) => AstV::Op(SKind::Modulo, seq![view_ast(*a), view_ast(*b)]),
        SExpression::Equals(a, b) => AstV::Op(SKind::Equals, seq![view_ast(*a), view_ast(*b)]),
        SExpression::NotEquals(a, b) => AstV::Op(SKind::NotEquals, seq![view_ast(*a), view_ast(*b)]),
        SExpression::GreaterThan(a, b) => AstV::Op(SKind::GreaterThan, seq![view_ast(*a), view_ast(*b)]),
        SExpression::LessThan(a, b) => AstV::Op(SKind::LessThan, seq![view_ast(*a), view_ast(*b)]),
        SExpression::GreaterThanOrEqual(a, b) => AstV::Op(SKind::GreaterThanOrEqual, seq![view_ast(*a), view_ast(*b)]),
        SExpression::LessThanOrEqual(a, b) => AstV::Op(SKind::LessThanOrEqual, seq![view_ast(*a), view_ast(*b)]),
        SExpression::LogicalAnd(a, b) => AstV::Op(SKind::LogicalAnd, seq![view_ast(*a), view_ast(*b)]),
        SExpression::LogicalOr(a, b) => AstV::Op(SKind::LogicalOr, seq![view_ast(*a), view_ast(*b)]),
        SExpression::Print(a) => AstV::Op(SKind::Print, seq![view_ast(*a)]),
        SExpression::Include(a) => AstV::Op(SKind::Include, seq![view_ast(*a)]),
        SExpression::Invert(a) => AstV::Op(SKind::Invert, seq![view_ast(*a)]),
        SExpression::Negate(a) => AstV::Op(SKind::Negate, seq![view_ast(*a)]),
        SExpression::Increment(a) => AstV::Op(SKind::Increment, seq![view_ast(*a)]),
        SExpression::Decrement(a) => AstV::Op(SKind::Decrement, seq![view_ast(*a)]),
        SExpression::VariableDeclaration { identifier: a, ast: b } => AstV::Op(SKind::VariableDeclaration, seq![view_ast(*a), view_ast(*b)]),
        SExpression::ConstDeclaration { identifier: a, ast: b } => AstV::Op(SKind::ConstDeclaration, seq![view_ast(*a), view_ast(*b)]),
        SExpression::DeclareFunction { identifier: a, function_datatype: b } => AstV::Op(SKind::DeclareFunction, seq![view_ast(*a), view_ast(*b)]),
        SExpression::Assignment { identifier: a, ast: b } => AstV::Op(SKind::Assignment, seq![view_ast(*a), view_ast(*b)]),
        SExpression::TypeAssignment { identifier: a, type_info: b } => AstV::Op(SKind::TypeAssignment, seq![view_ast(*a), view_ast(*b)]),
        SExpression::FieldAssignment { identifier: a, ast: b } => AstV::Op(SKind::FieldAssignment, seq![view_ast(*a), view_ast(*b)]),
        SExpression::CreateStruct { identifier: a, struct_datatype: b } => AstV::Op(SKind::CreateStruct, seq![view_ast(*a), view_ast(*b)]),
        SExpression::Loop { conditional: a, body: b } => AstV::Op(SKind::Loop, seq![view_ast(*a), view_ast(*b)]),
        SExpression::AccessArray { identifier: a, index: b } => AstV::Op(SKind::AccessArray, seq![view_ast(*a), view_ast(*b)]),
        SExpression::GetArrayLength(a) => AstV::Op(SKind::GetArrayLength, seq![view_ast(*a)]),
        SExpression::Range { start: a, end: b } => AstV::Op(SKind::Range, seq![view_ast(*a), view_ast(*b)]),
        SExpression::StructDeclaration { identifier: a, struct_type_info: b } => AstV::Op(SKind::StructDeclaration, seq![view_ast(*a), view_ast(*b)]),
        SExpression::AccessStructField { identifier: a, field_identifier: b } => AstV::Op(SKind::AccessStructField, seq![view_ast(*a), view_ast(*b)]),
        SExpression::ExecuteFn { identifier: a, parameters: b } => AstV::Op(SKind::ExecuteFn, seq![view_ast(*a), view_ast(*b)]),
    }
}

pub open spec fn view_dt(d: Datatype) -> DatatypeV
    decreases d,
{
    match d {
        Datatype::Number(n) => DatatypeV::Number(n),
        Datatype::String(s) => DatatypeV::String(s@),
        Datatype::Array { value, type_ } => DatatypeV::Array(view_dts(value@), view_ty(type_)),
        Datatype::Bool(b) => DatatypeV::Bool(b),
        Datatype::Nothing => DatatypeV::Nothing,
        Datatype::Function { parameters, body, return_type } => DatatypeV::Function(
            Box::new(view_ast(*parameters)),
            Box::new(view_ast(*body)),
            view_ty(return_type),
        ),
        Datatype::Struct { map } => DatatypeV::Struct(view_dt_fields(map@)),
        Datatype::StructType { identifier, type_information } => DatatypeV::StructType(
            identifier@,
            view_ty(type_information),
        ),
    }
}

pub open spec fn view_dts(s: Seq<std::rc::Rc<Datatype>>) -> Seq<DatatypeV>
    decreases s,
{
    if s.len() == 0 {
        Seq::empty()
    } else {
        seq![view_dt(*s[0])] + view_dts(s.drop_first())
    }
}

pub open spec fn view_dt_fields(s: Seq<(String, Datatype)>) -> Seq<(Seq<char>, DatatypeV)>
    decreases s,
{
    if s.len() == 0 {
        Seq::empty()
    } else {
        seq![(s[0].0@, view_dt(s[0].1))] + view_dt_fields(s.drop_first())
    }
}

pub open spec fn view_ty(t: TypeInfo) -> TypeV
    decreases t,
{
    match t {
        TypeInfo::Number => TypeV::Number,
        TypeInfo::Float => TypeV::Float,
        TypeInfo::String => TypeV::String,
        TypeInfo::Array(b) => TypeV::Array(Box::new(view_ty(*b))),
        TypeInfo::Bool => TypeV::Bool,
        TypeInfo::Nothing => TypeV::Nothing,
        TypeInfo::Function { parameters, return_type } => TypeV::Function(
            view_tys(parameters@),
            Box::new(view_ty(*return_type)),
        ),
        TypeInfo::Struct { map } => TypeV::Struct(view_ty_fields(map@)),
        TypeInfo::StructType { identifier } => TypeV::StructType(identifier@),
        TypeInfo::Any => TypeV::Any,
    }
}

pub open spec fn view_tys(s: Seq<TypeInfo>) -> Seq<TypeV>
    decreases s,
{
    if s.len() == 0 {
        Seq::empty()
    } else {
        seq![view_ty(s[0])] + view_tys(s.drop_first())
    }
}

pub open spec fn view_ty_fields(s: Seq<(String, TypeInfo)>) -> Seq<(Seq<char>, TypeV)>
    decreases s,
{
    if s.len() == 0 {
        Seq::empty()
    } else {
        seq![(s[0].0@, view_ty(s[0].1))] + view_ty_fields(s.drop_first())
    }
}

pub proof fn lemma_view_sexpr_is_op(s: SExpression)
    ensures
        view_sexpr(s) is Op,
{
}

pub proof fn lemma_view_asts(s: Seq<Ast>)
    ensures
        view_asts(s).len() == s.len(),
        forall|i: int| 0 <= i < s.len() ==> #[trigger] view_asts(s)[i] == view_ast(s[i]),
    decreases s.len(),
{
    if s.len() > 0 {
        lemma_view_asts(s.drop_first());
        assert forall|i: int| 0 <= i < s.len() implies #[trigger] view_asts(s)[i] == view_ast(s[i]) by {
            if i > 0 {
                assert(s.drop_first()[i - 1] == s[i]);
            }
        }
    }
}

pub proof fn lemma_view_dts(s: Seq<std::rc::Rc<Datatype>>)
    ensures
        view_dts(s).len() == s.len(),
        forall|i: int| 0 <= i < s.len() ==> #[trigger] view_dts(s)[i] == view_dt(*s[i]),
    decreases s.len(),
{
    if s.len() > 0 {
        lemma_view_dts(s.drop_first());
        assert forall|i: int| 0 <= i < s.len() implies #[trigger] view_dts(s)[i] == view_dt(*s[i]) by {
            if i > 0 {
                assert(s.drop_first()[i - 1] == s[i]);
            }
        }
    }
}

pub proof fn lemma_view_dt_fields(s: Seq<(String, Datatype)>)
    ensures
        view_dt_fields(s).len() == s.len(),
        forall|i: int| 0 <= i < s.len() ==> #[trigger] view_dt_fields(s)[i] == (s[i].0@, view_dt(s[i].1)),
    decreases s.len(),
{
    if s.len() > 0 {
        lemma_view_dt_fields(s.drop_first());
        assert forall|i: int| 0 <= i < s.len() implies #[trigger] view_dt_fields(s)[i] == (s[i].0@, view_dt(s[i].1)) by {
            if i > 0 {
                assert(s.drop_first()[i - 1] == s[i]);
            }
        }
    }
}

pub proof fn lemma_view_tys(s: Seq<TypeInfo>)
    ensures
        view_tys(s).len() == s.len(),
        forall|i: int| 0 <= i < s.len() ==> #[trigger] view_tys(s)[i] == view_ty(s[i]),
    decreases s.len(),
{
    if s.len() > 0 {
        lemma_view_tys(s.drop_first());
        assert forall|i: int| 0 <= i < s.len() implies #[trigger] view_tys(s)[i] == view_ty(s[i]) by {
            if i > 0 {
                assert(s.drop_first()[i - 1] == s[i]);
            }
        }
    }
}

pub proof fn lemma_view_ty_fields(s: Seq<(String, TypeInfo)>)
    ensures
        view_ty_fields(s).len() == s.len(),
        forall|i: int| 0 <= i < s.len() ==> #[trigger] view_ty_fields(s)[i] == (s[i].0@, view_ty(s[i].1)),
    decreases s.len(),
{
    if s.len() > 0 {
        lemma_view_ty_fields(s.drop_first());
        assert forall|i: int| 0 <= i < s.len() implies #[trigger] view_ty_fields(s)[i] == (s[i].0@, view_ty(s[i].1)) by {
            if i > 0 {
                assert(s.drop_first()[i - 1] == s[i]);
            }
        }
    }
}

impl View for Ast {
    type V = AstV;

    open spec fn view(&self) -> AstV {
        view_ast(*self)
    }
}

impl View for Datatype {
    type V = DatatypeV;

    open spec fn view(&self) -> DatatypeV {
        view_dt(*self)
    }
}

impl View for TypeInfo {
    type V = TypeV;

    open spec fn view(&self) -> TypeV {
        view_ty(*self)
    }
}

} // verus!
