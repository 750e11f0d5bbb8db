use vstd::prelude::*;
use std::rc::Rc;

verus! {

/// Abstract syntax tree of a program.
/// Evaluating an `Ast` produces a `Datatype` or a `LangError`.
#[derive(Debug, PartialEq)]
pub enum Ast {
    /// An operator together with its operands.
    SExpr(SExpression),
    /// A sequence of expressions, evaluated in order.
    ExpressionList(Vec<Ast>),
    Conditional {
        condition: Box<Ast>,
        true_expr: Box<Ast>,
        false_expr: Option<Box<Ast>>,
    },
    Literal(Datatype),
    /// A type annotation; it is never evaluated.
    Type(TypeInfo),
    /// A name that resolves to the value stored behind it.
    ValueIdentifier(String),
}

/// Operators that hold their operands.
#[derive(Debug, PartialEq)]
pub enum SExpression {
    Add(Box<Ast>, Box<Ast>),
    Subtract(Box<Ast>, Box<Ast>),
    Multiply(Box<Ast>, Box<Ast>),
    Divide(Box<Ast>, Box<Ast>),
    Modulo(Box<Ast>, Box<Ast>),
    Equals(Box<Ast>, Box<Ast>),
    NotEquals(Box<Ast>, Box<Ast>),
    GreaterThan(Box<Ast>, Box<Ast>),
    LessThan(Box<Ast>, Box<Ast>),
    GreaterThanOrEqual(Box<Ast>, Box<Ast>),
    LessThanOrEqual(Box<Ast>, Box<Ast>),
    LogicalAnd(Box<Ast>, Box<Ast>),
    LogicalOr(Box<Ast>, Box<Ast>),
    Print(Box<Ast>),
    Include(Box<Ast>),
    Invert(Box<Ast>),
    Negate(Box<Ast>),
    Increment(Box<Ast>),
    Decrement(Box<Ast>),
    VariableDeclaration { identifier: Box<Ast>, ast: Box<Ast> },
    ConstDeclaration { identifier: Box<Ast>, ast: Box<Ast> },
    DeclareFunction { identifier: Box<Ast>, function_datatype: Box<Ast> },
    Assignment { identifier: Box<Ast>, ast: Box<Ast> },
    TypeAssignment { identifier: Box<Ast>, type_info: Box<Ast> },
    FieldAssignment { identifier: Box<Ast>, ast: Box<Ast> },
    CreateStruct { identifier: Box<Ast>, struct_datatype: Box<Ast> },
    Loop { conditional: Box<Ast>, body: Box<Ast> },
    AccessArray { identifier: Box<Ast>, index: Box<Ast> },
    GetArrayLength(Box<Ast>),
    Range { start: Box<Ast>, end: Box<Ast> },
    StructDeclaration { identifier: Box<Ast>, struct_type_info: Box<Ast> },
    AccessStructField { identifier: Box<Ast>, field_identifier: Box<Ast> },
    ExecuteFn { identifier: Box<Ast>, parameters: Box<Ast> },
}

/// Values of the language.
#[derive(Debug, PartialEq)]
pub enum Datatype {
    Number(i32),
    String(String),
    Array { value: Vec<Rc<Datatype>>, type_: TypeInfo },
    Bool(bool),
    Nothing,
    Function { parameters: Box<Ast>, body: Box<Ast>, return_type: TypeInfo },
    /// An instance of a struct: its fields, kept in ascending order of their names.
    Struct { map: Vec<(String, Datatype)> },
    /// A declared struct type; `type_information` holds the types of its fields.
    StructType { identifier: String, type_information: TypeInfo },
}

/// Types of the language.
#[derive(Debug, PartialEq)]
pub enum TypeInfo {
    Number,
    Float,
    String,
    Array(Box<TypeInfo>),
    Bool,
    Nothing,
    Function { parameters: Vec<TypeInfo>, return_type: Box<TypeInfo> },
    /// The types of a struct's fields, kept in ascending order of their names.
    Struct { map: Vec<(String, TypeInfo)> },
    StructType { identifier: String },
    Any,
}

/// Errors that the type checker reports.
#[derive(Debug, PartialEq)]
pub enum TypeError {
    TypeMismatch(TypeInfo, TypeInfo),
    UnsupportedOperation(TypeInfo, TypeInfo),
    LhsNotAnIdentifier,
    IdentifierDoesntExist(String),
    MalformedAST,
    CanNotAssignToConstVariable,
    CanNotRedeclareConst,
    VariableDoesNotExist,
    IsNotAVariable,
    CanNotRedeclareFunction,
    CanNotRedeclareStructType,
}

/// Errors that evaluating a program reports.
#[derive(Debug, PartialEq)]
pub enum LangError {
    DivideByZero,
    IdentifierDoesntExist,
    ParserShouldHaveRejected,
    UnsupportedArithimaticOperation,
    ConditionOnNonBoolean,
    InvertNonBoolean,
    NegateNotNumber,
    DecrementNonNumber,
    IncrementNonNumber,
    ExecuteNonFunction,
    ReturnTypeDoesNotMatchReturnValue,
    FunctionParametersShouldBeExpressionList,
    ParameterLengthMismatch,
    InvalidFunctionPrototypeFormatting,
    TypeError { expected: TypeInfo, found: TypeInfo },
    ExpectedDataTypeInfo,
    InvalidSyntax,
    InvalidSyntaxFailedToParse,
    VariableDoesntExist(String),
    TriedToEvaluateTypeInfo(TypeInfo),
    ConditionalNotBoolean(TypeInfo),
    ArrayAccessOnNonArry(TypeInfo),
    InvalidIndexType(Datatype),
    NegativeIndex(i32),
    OutOfBoundsArrayAccess,
    FieldTypeNotSupplied,
    FieldIdentifierNotSupplied,
    NonAssignmentInStructDeclaration,
    StructBodyNotSupplied,
    StructNameNotSupplied,
    StructFieldDoesntExist,
    TriedToAccessNonStruct,
    NonAssignmentInStructInit,
    ExpectedIdentifier,
    ExpectedExpression,
    ExpectedIdentifierToBeStructType { found: String },
    InitState,
    CouldNotReadFile { filename: String, reason: String },
    CouldNotParseFile { filename: String, reason: String },
    TriedToGetLengthOfNonArray,
    RangeValueIsntNumber,
    MutabilityRulesViolated,
    NewTypeError(TypeError),
    /// The evaluation ran out of its budget of steps.
    StepLimitReached,
}

/// The result of evaluating an `Ast`.
pub type LangResult = Result<Rc<Datatype>, LangError>;

} // verus!
