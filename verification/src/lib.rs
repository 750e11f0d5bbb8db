//! An interpreter for a small scripting language: a parser over characters,
//! a type checker, a mutability checker and an evaluator, each with its
//! behaviour stated as a contract over a mathematical model of programs and
//! values (`model`, `semantics`), and the laws that relate them (`laws`,
//! `ordering`).

pub mod operator;
pub mod text;
pub mod ast;
pub mod model;
pub mod deep;
pub mod equality;
pub mod fields;
pub mod types;
pub mod errors;
pub mod arith;
pub mod values;
pub mod value_types;
pub mod semantics;
pub mod interpreter;
pub mod typecheck;
pub mod mutability;
pub mod preprocessor;
pub mod expressions;
pub mod for_loop;
pub mod repl;
pub mod includes;
pub mod laws;
pub mod ordering;
pub mod budget;
pub mod eval_laws;
pub mod parse_budget;
pub mod value_laws;
pub mod parser;
