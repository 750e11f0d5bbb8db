use vstd::prelude::*;

use crate::ast::{LangError, LangResult};
use crate::model::{DatatypeV, TypeV, view_dt, view_ty};
use crate::types::{TypeErrorV, view_type_error};

verus! {

/// The mathematical model of a `LangError`.
pub ghost enum LangErrorV {
    DivideByZero,
    IdentifierDoesntExist,
    ParserShouldHaveRejected,
    UnsupportedArithimaticOperation,
    ConditionOnNonBoolean,
    InvertNonBoolean,
    NegateNotNumber,
    DecrementNonNumber,
    IncrementNonNumber,
    ExecuteNonFunction,
    ReturnTypeDoesNotMatchReturnValue,
    FunctionParametersShouldBeExpressionList,
    ParameterLengthMismatch,
    InvalidFunctionPrototypeFormatting,
    TypeError(TypeV, TypeV),
    ExpectedDataTypeInfo,
    InvalidSyntax,
    InvalidSyntaxFailedToParse,
    VariableDoesntExist(Seq<char>),
    TriedToEvaluateTypeInfo(TypeV),
    ConditionalNotBoolean(TypeV),
    ArrayAccessOnNonArry(TypeV),
    InvalidIndexType(DatatypeV),
    NegativeIndex(i32),
    OutOfBoundsArrayAccess,
    FieldTypeNotSupplied,
    FieldIdentifierNotSupplied,
    NonAssignmentInStructDeclaration,
    StructBodyNotSupplied,
    StructNameNotSupplied,
    StructFieldDoesntExist,
    TriedToAccessNonStruct,
    NonAssignmentInStructInit,
    ExpectedIdentifier,
    ExpectedExpression,
    ExpectedIdentifierToBeStructType(Seq<char>),
    InitState,
    CouldNotReadFile(Seq<char>, Seq<char>),
    CouldNotParseFile(Seq<char>, Seq<char>),
    TriedToGetLengthOfNonArray,
    RangeValueIsntNumber,
    MutabilityRulesViolated,
    NewTypeError(TypeErrorV),
    StepLimitReached,
}

pub open spec fn view_lang_error(e: LangError) -> LangErrorV {
    match e {
        LangError::DivideByZero => LangErrorV::DivideByZero,
        LangError::IdentifierDoesntExist => LangErrorV::IdentifierDoesntExist,
        LangError::ParserShouldHaveRejected => LangErrorV::ParserShouldHaveRejected,
        LangError::UnsupportedArithimaticOperation => LangErrorV::UnsupportedArithimaticOperation,
        LangError::ConditionOnNonBoolean => LangErrorV::ConditionOnNonBoolean,
        LangError::InvertNonBoolean => LangErrorV::InvertNonBoolean,
        LangError::NegateNotNumber => LangErrorV::NegateNotNumber,
        LangError::DecrementNonNumber => LangErrorV::DecrementNonNumber,
        LangError::IncrementNonNumber => LangErrorV::IncrementNonNumber,
        LangError::ExecuteNonFunction => LangErrorV::ExecuteNonFunction,
        LangError::ReturnTypeDoesNotMatchReturnValue => LangErrorV::ReturnTypeDoesNotMatchReturnValue,
        LangError::FunctionParametersShouldBeExpressionList => LangErrorV::FunctionParametersShouldBeExpressionList,
        LangError::ParameterLengthMismatch => LangErrorV::ParameterLengthMismatch,
        LangError::InvalidFunctionPrototypeFormatting => LangErrorV::InvalidFunctionPrototypeFormatting,
        LangError::TypeError { expected, found } => LangErrorV::TypeError(view_ty(expected), view_ty(found)),
        LangError::ExpectedDataTypeInfo => LangErrorV::ExpectedDataTypeInfo,
        LangError::InvalidSyntax => LangErrorV::InvalidSyntax,
        LangError::InvalidSyntaxFailedToParse => LangErrorV::InvalidSyntaxFailedToParse,
        LangError::VariableDoesntExist(x) => LangErrorV::VariableDoesntExist(x@),
        LangError::TriedToEvaluateTypeInfo(x) => LangErrorV::TriedToEvaluateTypeInfo(view_ty(x)),
        LangError::ConditionalNotBoolean(x) => LangErrorV::ConditionalNotBoolean(view_ty(x)),
        LangError::ArrayAccessOnNonArry(x) => LangErrorV::ArrayAccessOnNonArry(view_ty(x)),
        LangError::InvalidIndexType(x) => LangErrorV::InvalidIndexType(view_dt(x)),
        LangError::NegativeIndex(x) => LangErrorV::NegativeIndex(x),
        LangError::OutOfBoundsArrayAccess => LangErrorV::OutOfBoundsArrayAccess,
        LangError::FieldTypeNotSupplied => LangErrorV::FieldTypeNotSupplied,
        LangError::FieldIdentifierNotSupplied => LangErrorV::FieldIdentifierNotSupplied,
        LangError::NonAssignmentInStructDeclaration => LangErrorV::NonAssignmentInStructDeclaration,
        LangError::StructBodyNotSupplied => LangErrorV::StructBodyNotSupplied,
        LangError::StructNameNotSupplied => LangErrorV::StructNameNotSupplied,
        LangError::StructFieldDoesntExist => LangErrorV::StructFieldDoesntExist,
        LangError::TriedToAccessNonStruct => LangErrorV::TriedToAccessNonStruct,
        LangError::NonAssignmentInStructInit => LangErrorV::NonAssignmentInStructInit,
        LangError::ExpectedIdentifier => LangErrorV::ExpectedIdentifier,
        LangError::ExpectedExpression => LangErrorV::ExpectedExpression,
        LangError::ExpectedIdentifierToBeStructType { found } => LangErrorV::ExpectedIdentifierToBeStructType(found@),
        LangError::InitState => LangErrorV::InitState,
        LangError::CouldNotReadFile { filename, reason } => LangErrorV::CouldNotReadFile(filename@, reason@),
        LangError::CouldNotParseFile { filename, reason } => LangErrorV::CouldNotParseFile(filename@, reason@),
        LangError::TriedToGetLengthOfNonArray => LangErrorV::TriedToGetLengthOfNonArray,
        LangError::RangeValueIsntNumber => LangErrorV::RangeValueIsntNumber,
        LangError::MutabilityRulesViolated => LangErrorV::MutabilityRulesViolated,
        LangError::NewTypeError(x) => LangErrorV::NewTypeError(view_type_error(x)),
        LangError::StepLimitReached => LangErrorV::StepLimitReached,
    }
}

impl View for LangError {
    type V = LangErrorV;

    open spec fn view(&self) -> LangErrorV {
        view_lang_error(*self)
    }
}

/// The model of a `LangResult`: the value behind the pointer, or the error.
pub open spec fn view_lang_result(r: LangResult) -> Result<DatatypeV, LangErrorV> {
    match r {
        Ok(d) => Ok(view_dt(*d)),
        Err(e) => Err(view_lang_error(e)),
    }
}

} // verus!
