use vstd::prelude::*;
use crate::ast::{TypeInfo, TypeError};
use crate::model::{TypeV, view_ty};

verus! {

/// The result of checking the type of an expression.
pub type TypeResult = Result<TypeInfo, TypeError>;

/// The mathematical model of a `TypeError`.
pub ghost enum TypeErrorV {
    TypeMismatch(TypeV, TypeV),
    UnsupportedOperation(TypeV, TypeV),
    LhsNotAnIdentifier,
    IdentifierDoesntExist(Seq<char>),
    MalformedAST,
    CanNotAssignToConstVariable,
    CanNotRedeclareConst,
    VariableDoesNotExist,
    IsNotAVariable,
    CanNotRedeclareFunction,
    CanNotRedeclareStructType,
}

pub open spec fn view_type_error(e: TypeError) -> TypeErrorV {
    match e {
        TypeError::TypeMismatch(a, b) => TypeErrorV::TypeMismatch(view_ty(a), view_ty(b)),
        TypeError::UnsupportedOperation(a, b) => TypeErrorV::UnsupportedOperation(view_ty(a), view_ty(b)),
        TypeError::LhsNotAnIdentifier => TypeErrorV::LhsNotAnIdentifier,
        TypeError::IdentifierDoesntExist(s) => TypeErrorV::IdentifierDoesntExist(s@),
        TypeError::MalformedAST => TypeErrorV::MalformedAST,
        TypeError::CanNotAssignToConstVariable => TypeErrorV::CanNotAssignToConstVariable,
        TypeError::CanNotRedeclareConst => TypeErrorV::CanNotRedeclareConst,
        TypeError::VariableDoesNotExist => TypeErrorV::VariableDoesNotExist,
        TypeError::IsNotAVariable => TypeErrorV::IsNotAVariable,
        TypeError::CanNotRedeclareFunction => TypeErrorV::CanNotRedeclareFunction,
        TypeError::CanNotRedeclareStructType => TypeErrorV::CanNotRedeclareStructType,
    }
}

impl View for TypeError {
    type V = TypeErrorV;

    open spec fn view(&self) -> TypeErrorV {
        view_type_error(*self)
    }
}

/// The model of a `TypeResult`.
pub open spec fn view_type_result(r: TypeResult) -> Result<TypeV, TypeErrorV> {
    match r {
        Ok(t) => Ok(view_ty(t)),
        Err(e) => Err(view_type_error(e)),
    }
}

/// The type of `a + b`: numbers add to numbers, a float makes the sum a float,
/// a string makes it a string, and `Any` takes the other side's type.
pub open spec fn type_add(a: TypeV, b: TypeV) -> Result<TypeV, TypeErrorV> {
    match (a, b) {
        (TypeV::Number, TypeV::Number) => Ok(TypeV::Number),
        (TypeV::Number, TypeV::String) => Ok(TypeV::String),
        (TypeV::Number, TypeV::Float) => Ok(TypeV::Float),
        (TypeV::Number, TypeV::Any) => Ok(TypeV::Number),
        (TypeV::Float, TypeV::Number) => Ok(TypeV::Float),
        (TypeV::Float, TypeV::String) => Ok(TypeV::String),
        (TypeV::Float, TypeV::Float) => Ok(TypeV::Float),
        (TypeV::Float, TypeV::Any) => Ok(TypeV::Float),
        (TypeV::String, TypeV::Number) => Ok(TypeV::String),
        (TypeV::String, TypeV::Float) => Ok(TypeV::String),
        (TypeV::String, TypeV::String) => Ok(TypeV::String),
        (TypeV::String, TypeV::Any) => Ok(TypeV::String),
        (TypeV::Any, _) => Ok(b),
        _ => Err(TypeErrorV::UnsupportedOperation(a, b)),
    }
}

/// The type of `a - b` and of `a * b`: numeric operands only, a float makes
/// the result a float, and `Any` takes the other side's type.
pub open spec fn type_sub_mul(a: TypeV, b: TypeV) -> Result<TypeV, TypeErrorV> {
    match (a, b) {
        (TypeV::Number, TypeV::Number) => Ok(TypeV::Number),
        (TypeV::Number, TypeV::Float) => Ok(TypeV::Float),
        (TypeV::Float, TypeV::Number) => Ok(TypeV::Float),
        (TypeV::Float, TypeV::Float) => Ok(TypeV::Float),
        (TypeV::Any, _) => Ok(b),
        _ => Err(TypeErrorV::UnsupportedOperation(a, b)),
    }
}

/// The type of `a / b`: numeric operands only; a float makes the result a float.
pub open spec fn type_div(a: TypeV, b: TypeV) -> Result<TypeV, TypeErrorV> {
    match (a, b) {
        (TypeV::Number, TypeV::Number) => Ok(TypeV::Number),
        (TypeV::Number, TypeV::Float) => Ok(TypeV::Float),
        (TypeV::Float, TypeV::Number) => Ok(TypeV::Float),
        (TypeV::Float, TypeV::Float) => Ok(TypeV::Float),
        _ => Err(TypeErrorV::UnsupportedOperation(a, b)),
    }
}

/// The type of `a % b`: numbers only.
pub open spec fn type_rem(a: TypeV, b: TypeV) -> Result<TypeV, TypeErrorV> {
    match (a, b) {
        (TypeV::Number, TypeV::Number) => Ok(TypeV::Number),
        _ => Err(TypeErrorV::UnsupportedOperation(a, b)),
    }
}

impl TypeInfo {
    /// The type of a sum of values of these two types.
    pub fn add_types(self, other: TypeInfo) -> (r: TypeResult)
        ensures
            view_type_result(r) == type_add(self@, other@),
    {
        match (&self, &other) {
            (TypeInfo::Number, TypeInfo::Number) => Ok(TypeInfo::Number),
            (TypeInfo::Number, TypeInfo::String) => Ok(TypeInfo::String),
            (TypeInfo::Number, TypeInfo::Float) => Ok(TypeInfo::Float),
            (TypeInfo::Number, TypeInfo::Any) => Ok(TypeInfo::Number),
            (TypeInfo::Float, TypeInfo::Number) => Ok(TypeInfo::Float),
            (TypeInfo::Float, TypeInfo::String) => Ok(TypeInfo::String),
            (TypeInfo::Float, TypeInfo::Float) => Ok(TypeInfo::Float),
            (TypeInfo::Float, TypeInfo::Any) => Ok(TypeInfo::Float),
            (TypeInfo::String, TypeInfo::Number) => Ok(TypeInfo::String),
            (TypeInfo::String, TypeInfo::Float) => Ok(TypeInfo::String),
            (TypeInfo::String, TypeInfo::String) => Ok(TypeInfo::String),
            (TypeInfo::String, TypeInfo::Any) => Ok(TypeInfo::String),
            (TypeInfo::Any, _) => Ok(other),
            _ => Err(TypeError::UnsupportedOperation(self, other)),
        }
    }

    /// The type of a difference of values of these two types.
    pub fn sub_types(self, other: TypeInfo) -> (r: TypeResult)
        ensures
            view_type_result(r) == type_sub_mul(self@, other@),
    {
        match (&self, &other) {
            (TypeInfo::Number, TypeInfo::Number) => Ok(TypeInfo::Number),
            (TypeInfo::Number, TypeInfo::Float) => Ok(TypeInfo::Float),
            (TypeInfo::Float, TypeInfo::Number) => Ok(TypeInfo::Float),
            (TypeInfo::Float, TypeInfo::Float) => Ok(TypeInfo::Float),
            (TypeInfo::Any, _) => Ok(other),
            _ => Err(TypeError::UnsupportedOperation(self, other)),
        }
    }

    /// The type of a product of values of these two types.
    pub fn mul_types(self, other: TypeInfo) -> (r: TypeResult)
        ensures
            view_type_result(r) == type_sub_mul(self@, other@),
    {
        self.sub_types(other)
    }

    /// The type of a quotient of values of these two types.
    pub fn div_types(self, other: TypeInfo) -> (r: TypeResult)
        ensures
            view_type_result(r) == type_div(self@, other@),
    {
        match (&self, &other) {
            (TypeInfo::Number, TypeInfo::Number) => Ok(TypeInfo::Number),
            (TypeInfo::Number, TypeInfo::Float) => Ok(TypeInfo::Float),
            (TypeInfo::Float, TypeInfo::Number) => Ok(TypeInfo::Float),
            (TypeInfo::Float, TypeInfo::Float) => Ok(TypeInfo::Float),
            _ => Err(TypeError::UnsupportedOperation(self, other)),
        }
    }

    /// The type of a remainder of values of these two types.
    pub fn rem_types(self, other: TypeInfo) -> (r: TypeResult)
        ensures
            view_type_result(r) == type_rem(self@, other@),
    {
        match (&self, &other) {
            (TypeInfo::Number, TypeInfo::Number) => Ok(TypeInfo::Number),
            _ => Err(TypeError::UnsupportedOperation(self, other)),
        }
    }
}

impl core::ops::Add for TypeInfo {
    type Output = TypeResult;

    fn add(self, other: TypeInfo) -> (r: TypeResult)
        ensures
            view_type_result(r) == type_add(self@, other@),
    {
        self.add_types(other)
    }
}

impl vstd::std_specs::ops::AddSpecImpl for TypeInfo {
    open spec fn obeys_add_spec() -> bool {
        false
    }

    open spec fn add_req(self, rhs: TypeInfo) -> bool {
        true
    }

    open spec fn add_spec(self, rhs: TypeInfo) -> TypeResult {
        arbitrary()
    }
}

} // verus!
