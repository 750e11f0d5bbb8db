use vstd::prelude::*;

verus! {

/// Operators that appear between or beside operands in an expression.
/// Besides the arithmetic symbols this also covers array indexing, struct
/// field access and function calls, which bind tighter than anything else.
#[derive(Debug, Clone, Copy, PartialEq, Eq, Structural, PartialOrd)]
pub enum Operator {
    ArrayAccess,
    StructAccess,
    ExecuteFunction,
    Increment,
    Decrement,
    Negate,
    Invert,
    Times,
    Divide,
    Modulo,
    Plus,
    Minus,
    GreaterThan,
    LessThan,
    GreaterThanOrEqual,
    LessThanOrEqual,
    Equals,
    NotEquals,
    LogicalAnd,
    LogicalOr,
    Assignment,
}

/// The precedence class of an operator: a lower value binds tighter.
pub open spec fn operator_precedence(op: Operator) -> u32 {
    match op {
        Operator::ArrayAccess | Operator::StructAccess | Operator::ExecuteFunction => 0,
        Operator::Increment | Operator::Decrement | Operator::Negate | Operator::Invert => 1,
        Operator::Times | Operator::Divide | Operator::Modulo => 2,
        Operator::Plus | Operator::Minus => 3,
        Operator::GreaterThan | Operator::LessThan | Operator::GreaterThanOrEqual
        | Operator::LessThanOrEqual => 4,
        Operator::Equals | Operator::NotEquals => 5,
        Operator::LogicalAnd | Operator::LogicalOr => 6,
        Operator::Assignment => 7,
    }
}

impl Operator {
    /// Accessing an array or a struct field and calling a function bind tightest;
    /// assignment binds loosest, so that only a fully evaluated value is assigned.
    pub fn precedence(self) -> (p: u32)
        ensures
            p == operator_precedence(self),
    {
        match self {
            Operator::ArrayAccess | Operator::StructAccess | Operator::ExecuteFunction => 0,
            Operator::Increment | Operator::Decrement | Operator::Negate | Operator::Invert => 1,
            Operator::Times | Operator::Divide | Operator::Modulo => 2,
            Operator::Plus | Operator::Minus => 3,
            Operator::GreaterThan | Operator::LessThan | Operator::GreaterThanOrEqual
            | Operator::LessThanOrEqual => 4,
            Operator::Equals | Operator::NotEquals => 5,
            Operator::LogicalAnd | Operator::LogicalOr => 6,
            Operator::Assignment => 7,
        }
    }
}

/// The operators that map directly onto arithmetic symbols.
#[derive(Debug, Clone, Copy, PartialEq, Eq, Structural, PartialOrd)]
pub enum ArithmeticOperator {
    Increment,
    Decrement,
    Negate,
    Times,
    Divide,
    Modulo,
    Plus,
    Minus,
    GreaterThan,
    LessThan,
    GreaterThanOrEqual,
    LessThanOrEqual,
    Equals,
    NotEquals,
    LogicalAnd,
    LogicalOr,
}

/// The precedence class of an arithmetic operator: a lower value binds tighter.
pub open spec fn arithmetic_precedence(op: ArithmeticOperator) -> u32 {
    match op {
        ArithmeticOperator::Increment | ArithmeticOperator::Decrement
        | ArithmeticOperator::Negate => 0,
        ArithmeticOperator::Times | ArithmeticOperator::Divide
        | ArithmeticOperator::Modulo => 1,
        ArithmeticOperator::Plus | ArithmeticOperator::Minus => 2,
        ArithmeticOperator::GreaterThan | ArithmeticOperator::LessThan
        | ArithmeticOperator::GreaterThanOrEqual | ArithmeticOperator::LessThanOrEqual => 3,
        ArithmeticOperator::Equals | ArithmeticOperator::NotEquals => 4,
        ArithmeticOperator::LogicalAnd | ArithmeticOperator::LogicalOr => 5,
    }
}

impl ArithmeticOperator {
    /// Unary operators bind tightest, then multiplicative, additive, relational,
    /// equality and finally logical operators.
    pub fn precedence(self) -> (p: u32)
        ensures
            p == arithmetic_precedence(self),
    {
        match self {
            ArithmeticOperator::Increment | ArithmeticOperator::Decrement
            | ArithmeticOperator::Negate => 0,
            ArithmeticOperator::Times | ArithmeticOperator::Divide
            | ArithmeticOperator::Modulo => 1,
            ArithmeticOperator::Plus | ArithmeticOperator::Minus => 2,
            ArithmeticOperator::GreaterThan | ArithmeticOperator::LessThan
            | ArithmeticOperator::GreaterThanOrEqual | ArithmeticOperator::LessThanOrEqual => 3,
            ArithmeticOperator::Equals | ArithmeticOperator::NotEquals => 4,
            ArithmeticOperator::LogicalAnd | ArithmeticOperator::LogicalOr => 5,
        }
    }
}

} // verus!
