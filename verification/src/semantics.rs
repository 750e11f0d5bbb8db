use vstd::prelude::*;
use crate::model::{AstV, DatatypeV, TypeV, SKind};
use crate::errors::LangErrorV;
use crate::fields::{field_get, field_put};
use crate::values::{value_add, value_sub, value_mul, value_div, value_rem, value_compare, Comparison};
use crate::value_types::type_of;
use crate::arith::wrap_i32;

verus! {

// The meaning of a program, as a big-step evaluation over the models of
// expressions and values. Every evaluation step uses one unit of a budget, so
// that a program that does not stop ends with `StepLimitReached`.

/// The variables of a program: names with their values, names ascending.
pub type Env = Seq<(Seq<char>, DatatypeV)>;

/// One value handed to `print`, with the variable's name when a struct is
/// printed through a variable.
pub type PrintV = (Option<Seq<char>>, DatatypeV);

/// What reading a file for `include` gave: the program in it, or why the
/// file could not be read or parsed.
pub ghost enum LoadedV {
    Program(AstV),
    Unreadable(Seq<char>),
    Unparsable(Seq<char>),
}

/// The files a program may include, each name with what reading it gave.
pub type IncludesV = Seq<(Seq<char>, LoadedV)>;

/// What an evaluation gives: its result, the variables after it, and what it printed.
pub ghost struct Outcome {
    pub result: Result<DatatypeV, LangErrorV>,
    pub env: Env,
    pub printed: Seq<PrintV>,
}

pub open spec fn outcome(result: Result<DatatypeV, LangErrorV>, env: Env, printed: Seq<PrintV>) -> Outcome {
    Outcome { result, env, printed }
}

/// `o2` after `o1`: the result and variables of `o2`, the printing of both.
pub open spec fn then(o1: Outcome, o2: Outcome) -> Outcome {
    Outcome { result: o2.result, env: o2.env, printed: o1.printed + o2.printed }
}

/// An error after `o`, with the variables given.
pub open spec fn fail_after(o: Outcome, e: LangErrorV, env: Env) -> Outcome {
    Outcome { result: Err(e), env, printed: o.printed }
}

pub open spec fn step_limit(env: Env) -> Outcome {
    outcome(Err(LangErrorV::StepLimitReached), env, Seq::empty())
}

/// The message of `VariableDoesntExist`.
pub open spec fn missing_variable_message(id: Seq<char>) -> Seq<char> {
    "Variable `"@ + id + "` hasn't been assigned yet"@
}

pub open spec fn include_get(inc: IncludesV, name: Seq<char>) -> Option<LoadedV>
    decreases inc.len(),
{
    if inc.len() == 0 {
        None
    } else if inc[0].0 == name {
        Some(inc[0].1)
    } else {
        include_get(inc.drop_first(), name)
    }
}

/// Whether the operator stores the value of its right side under the name on its left.
pub open spec fn is_binding(k: SKind) -> bool {
    match k {
        SKind::VariableDeclaration | SKind::ConstDeclaration | SKind::DeclareFunction
        | SKind::Assignment | SKind::TypeAssignment | SKind::FieldAssignment => true,
        _ => false,
    }
}

/// Whether the operator combines the values of its two sides.
pub open spec fn is_combining(k: SKind) -> bool {
    match k {
        SKind::Add | SKind::Subtract | SKind::Multiply | SKind::Divide | SKind::Modulo
        | SKind::Equals | SKind::NotEquals | SKind::GreaterThan | SKind::LessThan
        | SKind::GreaterThanOrEqual | SKind::LessThanOrEqual => true,
        _ => false,
    }
}

/// The value of a combining operator on the values of its two sides.
pub open spec fn combine(k: SKind, l: DatatypeV, r: DatatypeV) -> Result<DatatypeV, LangErrorV> {
    match k {
        SKind::Add => value_add(l, r),
        SKind::Subtract => value_sub(l, r),
        SKind::Multiply => value_mul(l, r),
        SKind::Divide => value_div(l, r),
        SKind::Modulo => value_rem(l, r),
        SKind::Equals => Ok(DatatypeV::Bool(l == r)),
        SKind::NotEquals => Ok(DatatypeV::Bool(l != r)),
        SKind::GreaterThan => Ok(DatatypeV::Bool(value_compare(l, r) == Some(Comparison::Greater))),
        SKind::LessThan => Ok(DatatypeV::Bool(value_compare(l, r) == Some(Comparison::Less))),
        SKind::GreaterThanOrEqual => Ok(DatatypeV::Bool(
            value_compare(l, r) == Some(Comparison::Greater) || value_compare(l, r) == Some(Comparison::Equal),
        )),
        _ => Ok(DatatypeV::Bool(
            value_compare(l, r) == Some(Comparison::Less) || value_compare(l, r) == Some(Comparison::Equal),
        )),
    }
}

/// The value of a one-operand arithmetic or logical operator.
pub open spec fn unary_value(k: SKind, v: DatatypeV) -> Result<DatatypeV, LangErrorV> {
    match k {
        SKind::Invert => match v {
            DatatypeV::Bool(b) => Ok(DatatypeV::Bool(!b)),
            _ => Err(LangErrorV::InvertNonBoolean),
        },
        SKind::Negate => match v {
            DatatypeV::Number(n) => Ok(DatatypeV::Number(wrap_i32(-n) as i32)),
            _ => Err(LangErrorV::NegateNotNumber),
        },
        SKind::Increment => match v {
            DatatypeV::Number(n) => Ok(DatatypeV::Number(wrap_i32(n + 1) as i32)),
            _ => Err(LangErrorV::IncrementNonNumber),
        },
        _ => match v {
            DatatypeV::Number(n) => Ok(DatatypeV::Number(wrap_i32(n - 1) as i32)),
            _ => Err(LangErrorV::DecrementNonNumber),
        },
    }
}

/// The numbers `start, start + 1, ..., end - 1`.
pub open spec fn range_values(start: i32, end: i32) -> Seq<DatatypeV> {
    Seq::new(if start < end { (end - start) as nat } else { 0 }, |i: int| DatatypeV::Number((start + i) as i32))
}

/// A type as written, with a struct's name replaced by the types of its fields
/// as declared in `env`.
pub open spec fn resolve_type(t: TypeV, env: Env) -> Result<TypeV, LangErrorV> {
    match t {
        TypeV::StructType(id) => resolve_struct_name(id, env),
        _ => Ok(t),
    }
}

pub open spec fn resolve_struct_name(id: Seq<char>, env: Env) -> Result<TypeV, LangErrorV> {
    match field_get(env, id) {
        Some(DatatypeV::StructType(_, ti)) => Ok(ti),
        Some(_) => Err(LangErrorV::ExpectedIdentifierToBeStructType(id)),
        None => Err(LangErrorV::IdentifierDoesntExist),
    }
}

/// The field types of a struct declaration `{ name: Type ... }`, in ascending order of names.
pub open spec fn declared_fields(list: Seq<AstV>, acc: Seq<(Seq<char>, TypeV)>) -> Result<Seq<(Seq<char>, TypeV)>, LangErrorV>
    decreases list.len(),
{
    if list.len() == 0 {
        Ok(acc)
    } else {
        match list[0] {
            AstV::Op(k, args) => if k == SKind::TypeAssignment {
                match args[0] {
                    AstV::ValueIdentifier(name) => match args[1] {
                        AstV::Type(t) => declared_fields(list.drop_first(), field_put(acc, name, t)),
                        _ => Err(LangErrorV::FieldTypeNotSupplied),
                    },
                    _ => Err(LangErrorV::FieldIdentifierNotSupplied),
                }
            } else {
                Err(LangErrorV::NonAssignmentInStructDeclaration)
            },
            _ => Err(LangErrorV::ExpectedExpression),
        }
    }
}

/// Declaring a struct: its name is bound to the struct type.
pub open spec fn declare_struct(name: AstV, body: AstV, env: Env) -> Outcome {
    match name {
        AstV::ValueIdentifier(id) => match body {
            AstV::ExpressionList(list) => match declared_fields(list, Seq::empty()) {
                Ok(m) => {
                    let st = DatatypeV::StructType(id, TypeV::Struct(m));
                    outcome(Ok(st), field_put(env, id, st), Seq::empty())
                }
                Err(e) => outcome(Err(e), env, Seq::empty()),
            },
            _ => outcome(Err(LangErrorV::StructBodyNotSupplied), env, Seq::empty()),
        },
        _ => outcome(Err(LangErrorV::StructNameNotSupplied), env, Seq::empty()),
    }
}

/// The expected type of one parameter `name: Type` of a function.
pub open spec fn param_expected_type(p: AstV, env: Env) -> Result<TypeV, LangErrorV> {
    match p {
        AstV::Op(k, args) => if k == SKind::TypeAssignment {
            match args[1] {
                AstV::Type(t) => resolve_type(t, env),
                AstV::ValueIdentifier(id) => resolve_struct_name(id, env),
                _ => Err(LangErrorV::ExpectedDataTypeInfo),
            }
        } else {
            Err(LangErrorV::InvalidFunctionPrototypeFormatting)
        },
        _ => Err(LangErrorV::InvalidFunctionPrototypeFormatting),
    }
}

/// Binds the arguments of a call to the parameter names, checking each
/// argument's type against its parameter's; `types_env` holds the caller's
/// variables, in which struct names are looked up.
pub open spec fn bind_params(params: Seq<AstV>, args: Seq<DatatypeV>, types_env: Env, env: Env) -> Result<Env, LangErrorV>
    decreases params.len(),
{
    if params.len() == 0 || args.len() == 0 {
        Ok(env)
    } else {
        match param_expected_type(params[0], types_env) {
            Err(e) => Err(e),
            Ok(t) => if t != type_of(args[0]) {
                Err(LangErrorV::TypeError(t, type_of(args[0])))
            } else {
                match params[0]->Op_1[0] {
                    AstV::ValueIdentifier(id) => bind_params(params.drop_first(), args.drop_first(), types_env, field_put(env, id, args[0])),
                    _ => Err(LangErrorV::IdentifierDoesntExist),
                }
            },
        }
    }
}

/// Evaluates an expression within a budget of `fuel` steps.
pub open spec fn eval(a: AstV, env: Env, inc: IncludesV, fuel: nat) -> Outcome
    decreases fuel, 1nat, 0nat,
{
    if fuel == 0 {
        step_limit(env)
    } else {
        let f = (fuel - 1) as nat;
        match a {
            AstV::Op(k, args) => eval_op(k, args, env, inc, fuel),
            AstV::ExpressionList(list) => eval_list(list, env, inc, f, DatatypeV::Nothing),
            AstV::Conditional(c, t, e) => {
                let oc = eval(*c, env, inc, f);
                match oc.result {
                    Err(_) => oc,
                    Ok(DatatypeV::Bool(true)) => then(oc, eval(*t, oc.env, inc, f)),
                    Ok(DatatypeV::Bool(false)) => match e {
                        Some(e) => then(oc, eval(*e, oc.env, inc, f)),
                        None => outcome(Ok(DatatypeV::Nothing), oc.env, oc.printed),
                    },
                    Ok(_) => fail_after(oc, LangErrorV::ConditionOnNonBoolean, oc.env),
                }
            }
            AstV::Literal(d) => outcome(Ok(d), env, Seq::empty()),
            AstV::Type(t) => outcome(Err(LangErrorV::TriedToEvaluateTypeInfo(t)), env, Seq::empty()),
            AstV::ValueIdentifier(id) => match field_get(env, id) {
                Some(v) => outcome(Ok(v), env, Seq::empty()),
                None => outcome(Err(LangErrorV::VariableDoesntExist(missing_variable_message(id))), env, Seq::empty()),
            },
        }
    }
}

/// Evaluates the expressions of a list in turn; the list's value is that of
/// its last expression, or nothing for an empty list.
pub open spec fn eval_list(list: Seq<AstV>, env: Env, inc: IncludesV, f: nat, last: DatatypeV) -> Outcome
    decreases f, 2nat, list.len(),
{
    if list.len() == 0 {
        outcome(Ok(last), env, Seq::empty())
    } else {
        let o = eval(list[0], env, inc, f);
        match o.result {
            Err(_) => o,
            Ok(v) => then(o, eval_list(list.drop_first(), o.env, inc, f, v)),
        }
    }
}

/// Evaluates the arguments of a call in turn.
pub open spec fn eval_args(list: Seq<AstV>, env: Env, inc: IncludesV, f: nat) -> (Result<Seq<DatatypeV>, LangErrorV>, Env, Seq<PrintV>)
    decreases f, 2nat, list.len(),
{
    if list.len() == 0 {
        (Ok(Seq::empty()), env, Seq::empty())
    } else {
        let o = eval(list[0], env, inc, f);
        match o.result {
            Err(e) => (Err(e), o.env, o.printed),
            Ok(v) => {
                let rest = eval_args(list.drop_first(), o.env, inc, f);
                match rest.0 {
                    Ok(vs) => (Ok(seq![v] + vs), rest.1, o.printed + rest.2),
                    Err(e) => (Err(e), rest.1, o.printed + rest.2),
                }
            }
        }
    }
}

/// Evaluates `while cond { body }`, where `last` is the value of the latest
/// run of the body.
pub open spec fn eval_loop(c: AstV, body: AstV, env: Env, inc: IncludesV, f: nat, last: DatatypeV) -> Outcome
    decreases f, 2nat, 0nat,
{
    if f == 0 {
        step_limit(env)
    } else {
        let oc = eval(c, env, inc, f);
        match oc.result {
            Err(_) => oc,
            Ok(DatatypeV::Bool(true)) => {
                let ob = eval(body, oc.env, inc, f);
                match ob.result {
                    Err(_) => then(oc, ob),
                    Ok(v) => then(then(oc, ob), eval_loop(c, body, ob.env, inc, (f - 1) as nat, v)),
                }
            }
            Ok(DatatypeV::Bool(false)) => outcome(Ok(last), oc.env, oc.printed),
            Ok(other) => fail_after(oc, LangErrorV::ConditionalNotBoolean(type_of(other)), oc.env),
        }
    }
}

/// Builds the fields of a new struct instance from `name: value` assignments,
/// checking each value against the type the struct declares for the field.
pub open spec fn create_fields(list: Seq<AstV>, types: Seq<(Seq<char>, TypeV)>, env: Env, inc: IncludesV, f: nat, acc: Seq<(Seq<char>, DatatypeV)>) -> Outcome
    decreases f, 2nat, list.len(),
{
    if list.len() == 0 {
        outcome(Ok(DatatypeV::Struct(acc)), env, Seq::empty())
    } else {
        match list[0] {
            AstV::Op(k, args) => if k == SKind::FieldAssignment {
                match args[0] {
                    AstV::ValueIdentifier(name) => match field_get(types, name) {
                        None => outcome(Err(LangErrorV::IdentifierDoesntExist), env, Seq::empty()),
                        Some(t) => {
                            let o = eval(args[1], env, inc, f);
                            match o.result {
                                Err(_) => o,
                                Ok(v) => if t == type_of(v) {
                                    then(o, create_fields(list.drop_first(), types, o.env, inc, f, field_put(acc, name, v)))
                                } else {
                                    fail_after(o, LangErrorV::TypeError(t, type_of(v)), o.env)
                                },
                            }
                        }
                    },
                    _ => outcome(Err(LangErrorV::ExpectedIdentifier), env, Seq::empty()),
                }
            } else {
                outcome(Err(LangErrorV::NonAssignmentInStructInit), env, Seq::empty())
            },
            _ => outcome(Err(LangErrorV::NonAssignmentInStructInit), env, Seq::empty()),
        }
    }
}

/// Calls a function: the arguments and the function are evaluated in a copy
/// of the variables, the parameters are bound in that copy, and the body runs
/// there; the caller's variables stay as they were. The result must have the
/// declared return type.
pub open spec fn eval_call(callee: AstV, arguments: AstV, env: Env, inc: IncludesV, f: nat) -> Outcome
    decreases f, 3nat, 0nat,
{
    match arguments {
        AstV::ExpressionList(exprs) => {
            let (args, env1, p1) = eval_args(exprs, env, inc, f);
            match args {
                Err(e) => outcome(Err(e), env, p1),
                Ok(vals) => {
                    let of = eval(callee, env1, inc, f);
                    let p2 = p1 + of.printed;
                    match of.result {
                        Err(e) => outcome(Err(e), env, p2),
                        Ok(DatatypeV::Function(params, body, ret)) => match *params {
                            AstV::ExpressionList(pl) => if vals.len() != pl.len() {
                                outcome(Err(LangErrorV::ParameterLengthMismatch), env, p2)
                            } else {
                                match bind_params(pl, vals, env, of.env) {
                                    Err(e) => outcome(Err(e), env, p2),
                                    Ok(env2) => {
                                        let ob = eval(*body, env2, inc, f);
                                        let p3 = p2 + ob.printed;
                                        match ob.result {
                                            Err(e) => outcome(Err(e), env, p3),
                                            Ok(v) => match resolve_type(ret, env) {
                                                Err(e) => outcome(Err(e), env, p3),
                                                Ok(t) => if type_of(v) == t {
                                                    outcome(Ok(v), env, p3)
                                                } else {
                                                    outcome(Err(LangErrorV::ReturnTypeDoesNotMatchReturnValue), env, p3)
                                                },
                                            },
                                        }
                                    }
                                }
                            },
                            _ => outcome(Err(LangErrorV::ParserShouldHaveRejected), env, p2),
                        },
                        Ok(_) => outcome(Err(LangErrorV::ExecuteNonFunction), env, p2),
                    }
                }
            }
        }
        _ => outcome(Err(LangErrorV::FunctionParametersShouldBeExpressionList), env, Seq::empty()),
    }
}

/// `&&` and `||`: the left operand, then the right one, each evaluated once;
/// both must be booleans, and an operand that is not gives a type error
/// naming its type.
pub open spec fn eval_logical(k: SKind, lhs: AstV, rhs: AstV, env: Env, inc: IncludesV, f: nat) -> Outcome
    decreases f, 2nat, 0nat,
{
    let o1 = eval(lhs, env, inc, f);
    match o1.result {
        Err(_) => o1,
        Ok(DatatypeV::Bool(x)) => {
            let o2 = eval(rhs, o1.env, inc, f);
            match o2.result {
                Err(_) => then(o1, o2),
                Ok(DatatypeV::Bool(y)) => then(
                    o1,
                    outcome(Ok(DatatypeV::Bool(if k == SKind::LogicalAnd { x && y } else { x || y })), o2.env, o2.printed),
                ),
                Ok(w) => then(o1, outcome(Err(LangErrorV::TypeError(TypeV::Bool, type_of(w))), o2.env, o2.printed)),
            }
        }
        Ok(w) => fail_after(o1, LangErrorV::TypeError(TypeV::Bool, type_of(w)), o1.env),
    }
}

/// `a op b` for an operator that combines the values of both sides, evaluated
/// left to right.
pub open spec fn eval_combine(k: SKind, a: AstV, b: AstV, env: Env, inc: IncludesV, f: nat) -> Outcome
    decreases f, 2nat, 0nat,
{
    let ol = eval(a, env, inc, f);
    match ol.result {
        Err(_) => ol,
        Ok(l) => {
            let or = eval(b, ol.env, inc, f);
            match or.result {
                Err(_) => then(ol, or),
                Ok(r) => outcome(combine(k, l, r), or.env, ol.printed + or.printed),
            }
        }
    }
}

/// `name = value` and its relatives: the value is computed in a copy of the
/// variables and then stored under the name.
pub open spec fn eval_binding(a: AstV, b: AstV, env: Env, inc: IncludesV, f: nat) -> Outcome
    decreases f, 2nat, 0nat,
{
    match a {
        AstV::ValueIdentifier(id) => {
            let o = eval(b, env, inc, f);
            match o.result {
                Err(e) => outcome(Err(e), env, o.printed),
                Ok(v) => outcome(Ok(v), field_put(env, id, v), o.printed),
            }
        }
        _ => outcome(Err(LangErrorV::IdentifierDoesntExist), env, Seq::empty()),
    }
}

/// `array[index]`.
pub open spec fn eval_index(a: AstV, b: AstV, env: Env, inc: IncludesV, f: nat) -> Outcome
    decreases f, 2nat, 0nat,
{
    let od = eval(a, env, inc, f);
    match od.result {
        Err(_) => od,
        Ok(DatatypeV::Array(vals, _)) => {
            let oi = eval(b, od.env, inc, f);
            match oi.result {
                Err(_) => then(od, oi),
                Ok(DatatypeV::Number(i)) => {
                    let r = if i >= 0 {
                        if i < vals.len() {
                            Ok(vals[i as int])
                        } else {
                            Err(LangErrorV::OutOfBoundsArrayAccess)
                        }
                    } else {
                        Err(LangErrorV::NegativeIndex(i))
                    };
                    outcome(r, oi.env, od.printed + oi.printed)
                }
                Ok(other) => outcome(Err(LangErrorV::InvalidIndexType(other)), oi.env, od.printed + oi.printed),
            }
        }
        Ok(other) => fail_after(od, LangErrorV::ArrayAccessOnNonArry(type_of(other)), od.env),
    }
}

/// The number of elements of an array.
pub open spec fn eval_length(a: AstV, env: Env, inc: IncludesV, f: nat) -> Outcome
    decreases f, 2nat, 0nat,
{
    let od = eval(a, env, inc, f);
    match od.result {
        Err(_) => od,
        Ok(DatatypeV::Array(vals, _)) => outcome(Ok(DatatypeV::Number(vals.len() as i32)), od.env, od.printed),
        Ok(_) => fail_after(od, LangErrorV::TriedToGetLengthOfNonArray, od.env),
    }
}

/// `[start..end]`: the array of the numbers from `start` up to, not including, `end`.
pub open spec fn eval_range(a: AstV, b: AstV, env: Env, inc: IncludesV, f: nat) -> Outcome
    decreases f, 2nat, 0nat,
{
    let os = eval(a, env, inc, f);
    match os.result {
        Err(_) => os,
        Ok(DatatypeV::Number(s)) => {
            let oe = eval(b, os.env, inc, f);
            match oe.result {
                Err(_) => then(os, oe),
                Ok(DatatypeV::Number(e)) => outcome(
                    Ok(DatatypeV::Array(range_values(s, e), TypeV::Number)),
                    oe.env,
                    os.printed + oe.printed,
                ),
                Ok(_) => outcome(Err(LangErrorV::RangeValueIsntNumber), oe.env, os.printed + oe.printed),
            }
        }
        Ok(_) => fail_after(os, LangErrorV::RangeValueIsntNumber, os.env),
    }
}

/// `instance.field`.
pub open spec fn eval_field(a: AstV, b: AstV, env: Env, inc: IncludesV, f: nat) -> Outcome
    decreases f, 2nat, 0nat,
{
    let od = eval(a, env, inc, f);
    match od.result {
        Err(_) => od,
        Ok(DatatypeV::Struct(m)) => match b {
            AstV::ValueIdentifier(name) => match field_get(m, name) {
                Some(v) => outcome(Ok(v), od.env, od.printed),
                None => fail_after(od, LangErrorV::StructFieldDoesntExist, od.env),
            },
            _ => fail_after(od, LangErrorV::IdentifierDoesntExist, od.env),
        },
        Ok(_) => fail_after(od, LangErrorV::TriedToAccessNonStruct, od.env),
    }
}

/// `new Name { field: value ... }`.
pub open spec fn eval_new_struct(a: AstV, b: AstV, env: Env, inc: IncludesV, f: nat) -> Outcome
    decreases f, 3nat, 0nat,
{
    let od = eval(a, env, inc, f);
    match od.result {
        Err(_) => od,
        Ok(DatatypeV::StructType(_, TypeV::Struct(types))) => match b {
            AstV::ExpressionList(list) => then(od, create_fields(list, types, od.env, inc, f, Seq::empty())),
            _ => fail_after(od, LangErrorV::StructBodyNotSupplied, od.env),
        },
        Ok(_) => fail_after(od, LangErrorV::ExpectedIdentifier, od.env),
    }
}

/// The label under which a value is printed: the variable's name, when a
/// struct is printed through a variable.
pub open spec fn print_label(a: AstV, v: DatatypeV) -> Option<Seq<char>> {
    match a {
        AstV::ValueIdentifier(id) => if v is Struct { Some(id) } else { None },
        _ => None,
    }
}

/// `print(expr)`: the value is recorded as printed and is the result.
pub open spec fn eval_print(a: AstV, env: Env, inc: IncludesV, f: nat) -> Outcome
    decreases f, 2nat, 0nat,
{
    let o = eval(a, env, inc, f);
    match o.result {
        Err(_) => o,
        Ok(v) => outcome(Ok(v), o.env, o.printed.push((print_label(a, v), v))),
    }
}

/// `include "file"`: the program read from the file runs in the current variables.
pub open spec fn eval_include(a: AstV, env: Env, inc: IncludesV, f: nat) -> Outcome
    decreases f, 2nat, 0nat,
{
    let o = eval(a, env, inc, f);
    match o.result {
        Err(_) => o,
        Ok(DatatypeV::String(name)) => match include_get(inc, name) {
            Some(LoadedV::Program(program)) => then(o, eval(program, o.env, inc, f)),
            Some(LoadedV::Unreadable(reason)) => fail_after(o, LangErrorV::CouldNotReadFile(name, reason), o.env),
            Some(LoadedV::Unparsable(reason)) => fail_after(o, LangErrorV::CouldNotParseFile(name, reason), o.env),
            None => fail_after(o, LangErrorV::CouldNotReadFile(name, not_loaded_reason()), o.env),
        },
        Ok(_) => fail_after(o, LangErrorV::CouldNotReadFile("Not provided"@, "File name was not a string."@), o.env),
    }
}

/// Why a file that was not handed to the interpreter cannot be included.
pub open spec fn not_loaded_reason() -> Seq<char> {
    "the file was not loaded"@
}

/// `!x`, `-x`, `++x` and `--x`.
pub open spec fn eval_unary(k: SKind, a: AstV, env: Env, inc: IncludesV, f: nat) -> Outcome
    decreases f, 2nat, 0nat,
{
    let o = eval(a, env, inc, f);
    match o.result {
        Err(_) => o,
        Ok(v) => outcome(unary_value(k, v), o.env, o.printed),
    }
}

/// Evaluates an operator with its operands.
pub open spec fn eval_op(k: SKind, args: Seq<AstV>, env: Env, inc: IncludesV, fuel: nat) -> Outcome
    decreases fuel, 0nat, 0nat,
{
    if fuel == 0 {
        step_limit(env)
    } else {
        let f = (fuel - 1) as nat;
        let a = args[0];
        let b = args[1];
        if is_combining(k) {
            eval_combine(k, a, b, env, inc, f)
        } else if k == SKind::LogicalAnd || k == SKind::LogicalOr {
            eval_logical(k, a, b, env, inc, f)
        } else if is_binding(k) {
            eval_binding(a, b, env, inc, f)
        } else {
            match k {
                SKind::Loop => eval_loop(a, b, env, inc, f, DatatypeV::Nothing),
                SKind::AccessArray => eval_index(a, b, env, inc, f),
                SKind::GetArrayLength => eval_length(a, env, inc, f),
                SKind::Range => eval_range(a, b, env, inc, f),
                SKind::StructDeclaration => declare_struct(a, b, env),
                SKind::AccessStructField => eval_field(a, b, env, inc, f),
                SKind::CreateStruct => eval_new_struct(a, b, env, inc, f),
                SKind::ExecuteFn => eval_call(a, b, env, inc, f),
                SKind::Print => eval_print(a, env, inc, f),
                SKind::Include => eval_include(a, env, inc, f),
                _ => eval_unary(k, a, env, inc, f),
            }
        }
    }
}

} // verus!
