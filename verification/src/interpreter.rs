use vstd::prelude::*;
use vstd::string::StringExecFns;
use std::rc::Rc;
use crate::ast::{Ast, Datatype, TypeInfo, LangError, LangResult};
use crate::model::{AstV, DatatypeV, TypeV, SKind, is_unary, view_ast, view_asts, view_dt, view_dts, view_dt_fields, view_ty, view_ty_fields, lemma_view_asts, lemma_view_dts, lemma_view_sexpr_is_op};
use crate::semantics::{Env, PrintV, IncludesV, LoadedV, Outcome, then, eval, eval_op, eval_list, eval_args, eval_loop, eval_call, eval_logical, eval_combine, eval_binding, eval_index, eval_length, eval_range, eval_field, eval_new_struct, eval_print, eval_include, eval_unary, create_fields, declare_struct, declared_fields, bind_params, param_expected_type, resolve_type, resolve_struct_name, include_get, missing_variable_message, print_label, combine, unary_value, range_values, is_combining, is_binding};
use crate::errors::{LangErrorV, view_lang_result};
use crate::fields::{field_get, field_put, raw_get, raw_put, get_field, put_field};
use crate::deep::{share, decompose, copy_datatype, copy_type, copy_string, copy_ast, lemma_view_dts_push};
use crate::value_types::type_of;
use crate::values::{Comparison, lemma_raw_get_dt, lemma_raw_put_dt, lemma_raw_put_ty};
use crate::equality::{datatype_eq, type_eq};
use crate::text::seq_lt;

verus! {

/// What reading a file for `include` gave.
#[derive(Debug, PartialEq)]
pub enum Loaded {
    /// The program the file holds.
    Program(Ast),
    /// The file could not be read, for the reason given.
    Unreadable(String),
    /// The file could not be parsed, for the reason given.
    Unparsable(String),
}

pub open spec fn view_loaded(l: Loaded) -> LoadedV {
    match l {
        Loaded::Program(a) => LoadedV::Program(view_ast(a)),
        Loaded::Unreadable(r) => LoadedV::Unreadable(r@),
        Loaded::Unparsable(r) => LoadedV::Unparsable(r@),
    }
}

/// The model of the variables: each name with the value behind its pointer.
pub open spec fn view_env(s: Seq<(String, Rc<Datatype>)>) -> Env {
    Seq::new(s.len(), |i: int| (s[i].0@, view_dt(*s[i].1)))
}

pub open spec fn view_label(l: Option<String>) -> Option<Seq<char>> {
    match l {
        Some(s) => Some(s@),
        None => None,
    }
}

/// The model of what was printed.
pub open spec fn view_output(s: Seq<(Option<String>, Rc<Datatype>)>) -> Seq<PrintV> {
    Seq::new(s.len(), |i: int| (view_label(s[i].0), view_dt(*s[i].1)))
}

/// The model of the files a program may include.
pub open spec fn view_includes(s: Seq<(String, Loaded)>) -> IncludesV {
    Seq::new(s.len(), |i: int| (s[i].0@, view_loaded(s[i].1)))
}

/// A running program: its variables (names ascending), the values it
/// printed, in order, and the files it may include.
pub struct Context {
    pub variables: Vec<(String, Rc<Datatype>)>,
    pub output: Vec<(Option<String>, Rc<Datatype>)>,
    pub includes: Vec<(String, Loaded)>,
}

impl Context {
    pub open spec fn env(&self) -> Env {
        view_env(self.variables@)
    }

    pub open spec fn printed(&self) -> Seq<PrintV> {
        view_output(self.output@)
    }

    pub open spec fn inc(&self) -> IncludesV {
        view_includes(self.includes@)
    }

    /// The variables are in strictly ascending order of names, so no name
    /// is bound twice.
    pub open spec fn wf(&self) -> bool {
        crate::fields::sorted_keys(self.env())
    }

    /// A context with no variables, nothing printed and no files to include.
    pub fn new() -> (c: Context)
        ensures
            c.env() == Seq::<(Seq<char>, DatatypeV)>::empty(),
            c.printed() == Seq::<PrintV>::empty(),
            c.inc() == Seq::<(Seq<char>, LoadedV)>::empty(),
            c.wf(),
    {
        let c = Context { variables: Vec::new(), output: Vec::new(), includes: Vec::new() };
        assert(c.env() =~= Seq::<(Seq<char>, DatatypeV)>::empty());
        assert(c.printed() =~= Seq::<PrintV>::empty());
        assert(c.inc() =~= Seq::<(Seq<char>, LoadedV)>::empty());
        c
    }
}

/// An evaluation that gave `r` took the context from `before` to `after` as
/// the outcome `o` describes: same result, the variables `o` ends with, what
/// `o` printed appended to the output, and the files left as they were.
pub open spec fn performs(before: Context, after: Context, o: Outcome, r: LangResult) -> bool {
    &&& view_lang_result(r) == o.result
    &&& after.env() == o.env
    &&& after.printed() == before.printed() + o.printed
    &&& after.includes@ == before.includes@
}

/// The operands of an operator, as its model lists them.
pub open spec fn operands(x: &Ast, y: Option<&Ast>) -> Seq<AstV> {
    match y {
        Some(z) => seq![view_ast(*x), view_ast(*z)],
        None => seq![view_ast(*x)],
    }
}

broadcast use crate::fields::lemma_seq_add_empty;

proof fn lemma_concat3<A>(a: Seq<A>, b: Seq<A>, c: Seq<A>)
    ensures
        a + b + c == a + (b + c),
{
    assert(a + b + c =~= a + (b + c));
}

proof fn lemma_env_get(s: Seq<(String, Rc<Datatype>)>, k: Seq<char>)
    ensures
        match raw_get(s, k) {
            Some(v) => field_get(view_env(s), k) == Some(view_dt(*v)),
            None => field_get(view_env(s), k) is None,
        },
    decreases s.len(),
{
    if s.len() > 0 {
        lemma_env_get(s.drop_first(), k);
        assert(view_env(s).drop_first() =~= view_env(s.drop_first()));
    }
}

pub proof fn lemma_env_put(s: Seq<(String, Rc<Datatype>)>, k: String, v: Rc<Datatype>)
    ensures
        view_env(raw_put(s, k, v)) == field_put(view_env(s), k@, view_dt(*v)),
    decreases s.len(),
{
    let r = raw_put(s, k, v);
    let vs = view_env(s);
    if s.len() == 0 {
        assert(view_env(r) =~= seq![(k@, view_dt(*v))]);
    } else {
        assert(vs.drop_first() =~= view_env(s.drop_first()));
        if s[0].0@ == k@ {
            assert(view_env(r) =~= seq![(k@, view_dt(*v))] + vs.drop_first());
        } else if seq_lt(k@, s[0].0@) {
            assert(view_env(r) =~= seq![(k@, view_dt(*v))] + vs);
        } else {
            lemma_env_put(s.drop_first(), k, v);
            assert(view_env(r) =~= seq![vs[0]] + field_put(vs.drop_first(), k@, view_dt(*v)));
        }
    }
}

proof fn lemma_raw_get_ty(s: Seq<(String, TypeInfo)>, k: Seq<char>)
    ensures
        match raw_get(s, k) {
            Some(v) => field_get(view_ty_fields(s), k) == Some(view_ty(v)),
            None => field_get(view_ty_fields(s), k) is None,
        },
    decreases s.len(),
{
    if s.len() > 0 {
        lemma_raw_get_ty(s.drop_first(), k);
        assert(view_ty_fields(s)[0] == (s[0].0@, view_ty(s[0].1)));
        assert(view_ty_fields(s).drop_first() == view_ty_fields(s.drop_first()));
    }
}

/// A copy of the variables that points to the same values.
fn copy_variables(v: &Vec<(String, Rc<Datatype>)>) -> (r: Vec<(String, Rc<Datatype>)>)
    ensures
        view_env(r@) == view_env(v@),
{
    let mut r: Vec<(String, Rc<Datatype>)> = Vec::new();
    let mut i: usize = 0;
    while i < v.len()
        invariant
            i <= v.len(),
            r@.len() == i,
            view_env(r@) =~= view_env(v@).subrange(0, i as int),
        decreases v.len() - i,
    {
        let name = copy_string(&v[i].0);
        let value = share(&v[i].1);
        let ghost before = r@;
        r.push((name, value));
        proof {
            assert(r@ == before.push((name, value)));
            assert forall|j: int| 0 <= j < r@.len() implies #[trigger] view_env(r@)[j] == view_env(v@).subrange(0, i + 1)[j] by {
                if j < i {
                    assert(r@[j] == before[j]);
                    assert(view_env(before)[j] == view_env(v@).subrange(0, i as int)[j]);
                }
            }
        }
        i = i + 1;
        assert(view_env(r@) =~= view_env(v@).subrange(0, i as int));
    }
    assert(view_env(v@).subrange(0, i as int) =~= view_env(v@));
    r
}

/// The message of `VariableDoesntExist` for a name.
fn missing_message(id: &String) -> (m: String)
    ensures
        m@ == missing_variable_message(id@),
{
    let m = String::from_str("Variable `");
    let m = m.concat(id.as_str());
    m.concat("` hasn't been assigned yet")
}

/// Whether the operator combines the values of its two sides.
fn combining(k: SKind) -> (b: bool)
    ensures
        b == is_combining(k),
{
    match k {
        SKind::Add | SKind::Subtract | SKind::Multiply | SKind::Divide | SKind::Modulo
        | SKind::Equals | SKind::NotEquals | SKind::GreaterThan | SKind::LessThan
        | SKind::GreaterThanOrEqual | SKind::LessThanOrEqual => true,
        _ => false,
    }
}

/// Whether the operator stores a value under a name.
fn binding(k: SKind) -> (b: bool)
    ensures
        b == is_binding(k),
{
    match k {
        SKind::VariableDeclaration | SKind::ConstDeclaration | SKind::DeclareFunction
        | SKind::Assignment | SKind::TypeAssignment | SKind::FieldAssignment => true,
        _ => false,
    }
}

/// The value of a combining operator on two values.
fn combine_values(k: SKind, l: &Datatype, r: &Datatype) -> (res: LangResult)
    requires
        is_combining(k),
    ensures
        view_lang_result(res) == combine(k, l@, r@),
{
    match k {
        SKind::Add => copy_datatype(l).add_values(copy_datatype(r)),
        SKind::Subtract => copy_datatype(l).sub_values(copy_datatype(r)),
        SKind::Multiply => copy_datatype(l).mul_values(copy_datatype(r)),
        SKind::Divide => copy_datatype(l).div_values(copy_datatype(r)),
        SKind::Modulo => copy_datatype(l).rem_values(copy_datatype(r)),
        SKind::Equals => Ok(Rc::new(Datatype::Bool(datatype_eq(l, r)))),
        SKind::NotEquals => Ok(Rc::new(Datatype::Bool(!datatype_eq(l, r)))),
        _ => {
            let c = l.compare_values(r);
            let b = match k {
                SKind::GreaterThan => c == Some(Comparison::Greater),
                SKind::LessThan => c == Some(Comparison::Less),
                SKind::GreaterThanOrEqual => c == Some(Comparison::Greater) || c == Some(Comparison::Equal),
                _ => c == Some(Comparison::Less) || c == Some(Comparison::Equal),
            };
            Ok(Rc::new(Datatype::Bool(b)))
        }
    }
}

/// The value of `!x`, `-x`, `++x` or `--x`.
fn unary(k: SKind, v: &Datatype) -> (res: LangResult)
    ensures
        view_lang_result(res) == unary_value(k, v@),
{
    match k {
        SKind::Invert => match v {
            Datatype::Bool(b) => Ok(Rc::new(Datatype::Bool(!*b))),
            _ => Err(LangError::InvertNonBoolean),
        },
        SKind::Negate => match v {
            Datatype::Number(n) => {
                let m: i32 = if *n == i32::MIN { i32::MIN } else { -*n };
                Ok(Rc::new(Datatype::Number(m)))
            }
            _ => Err(LangError::NegateNotNumber),
        },
        SKind::Increment => match v {
            Datatype::Number(n) => {
                let m: i32 = if *n == i32::MAX { i32::MIN } else { *n + 1 };
                Ok(Rc::new(Datatype::Number(m)))
            }
            _ => Err(LangError::IncrementNonNumber),
        },
        _ => match v {
            Datatype::Number(n) => {
                let m: i32 = if *n == i32::MIN { i32::MAX } else { *n - 1 };
                Ok(Rc::new(Datatype::Number(m)))
            }
            _ => Err(LangError::DecrementNonNumber),
        },
    }
}

/// `after` ran `o2` from `mid`, which ran `o1` from `before`: together they
/// printed what `then(o1, o2)` prints.
proof fn lemma_then_printed(before: Context, mid: Context, after: Context, o1: Outcome, o2: Outcome)
    requires
        mid.printed() == before.printed() + o1.printed,
        after.printed() == mid.printed() + o2.printed,
    ensures
        after.printed() == before.printed() + then(o1, o2).printed,
{
    lemma_concat3(before.printed(), o1.printed, o2.printed);
}

/// The model of a type computed by the interpreter, or of the error met.
pub open spec fn view_typed(r: Result<TypeInfo, LangError>) -> Result<TypeV, LangErrorV> {
    match r {
        Ok(t) => Ok(t@),
        Err(e) => Err(e@),
    }
}

/// The type of the struct named `id`, as declared among the variables.
fn resolve_struct_name_x(id: &String, env: &Vec<(String, Rc<Datatype>)>) -> (r: Result<TypeInfo, LangError>)
    ensures
        view_typed(r) == resolve_struct_name(id@, view_env(env@)),
{
    proof {
        lemma_env_get(env@, id@);
    }
    match get_field(env, id) {
        Some(v) => match &**v {
            Datatype::StructType { type_information, .. } => Ok(copy_type(type_information)),
            _ => Err(LangError::ExpectedIdentifierToBeStructType { found: copy_string(id) }),
        },
        None => Err(LangError::IdentifierDoesntExist),
    }
}

/// A type as written, with a struct's name replaced by its declared field types.
fn resolve_type_x(t: &TypeInfo, env: &Vec<(String, Rc<Datatype>)>) -> (r: Result<TypeInfo, LangError>)
    ensures
        view_typed(r) == resolve_type(t@, view_env(env@)),
{
    match t {
        TypeInfo::StructType { identifier } => resolve_struct_name_x(identifier, env),
        _ => Ok(copy_type(t)),
    }
}

/// The type one parameter `name: Type` of a function expects.
fn expected_param_type(p: &Ast, env: &Vec<(String, Rc<Datatype>)>) -> (r: Result<TypeInfo, LangError>)
    ensures
        view_typed(r) == param_expected_type(p@, view_env(env@)),
{
    match p {
        Ast::SExpr(s) => {
            let (k, _x, y) = decompose(s);
            if k == SKind::TypeAssignment {
                match y.unwrap() {
                    Ast::Type(t) => resolve_type_x(t, env),
                    Ast::ValueIdentifier(id) => resolve_struct_name_x(id, env),
                    other => {
                        proof {
                            if let Ast::SExpr(s2) = other {
                                lemma_view_sexpr_is_op(*s2);
                            }
                        }
                        Err(LangError::ExpectedDataTypeInfo)
                    }
                }
            } else {
                Err(LangError::InvalidFunctionPrototypeFormatting)
            }
        }
        _ => Err(LangError::InvalidFunctionPrototypeFormatting),
    }
}

/// Binds the arguments of a call to the names of the parameters, after
/// checking each argument's type against its parameter's.
fn bind_parameters(
    params: &Vec<Ast>,
    args: &Vec<Rc<Datatype>>,
    types_env: &Vec<(String, Rc<Datatype>)>,
    vars: &mut Vec<(String, Rc<Datatype>)>,
) -> (r: Result<(), LangError>)
    requires
        params.len() == args.len(),
    ensures
        match r {
            Ok(_) => bind_params(view_asts(params@), view_dts(args@), view_env(types_env@), view_env(old(vars)@))
                == Ok::<Env, LangErrorV>(view_env(final(vars)@)),
            Err(e) => bind_params(view_asts(params@), view_dts(args@), view_env(types_env@), view_env(old(vars)@))
                == Err::<Env, LangErrorV>(e@),
        },
{
    let ghost ps = view_asts(params@);
    let ghost vs = view_dts(args@);
    let ghost te = view_env(types_env@);
    let ghost whole = bind_params(ps, vs, te, view_env(vars@));
    proof {
        lemma_view_asts(params@);
        lemma_view_dts(args@);
        assert(ps.skip(0) =~= ps);
        assert(vs.skip(0) =~= vs);
    }
    let mut i: usize = 0;
    while i < params.len()
        invariant
            i <= params.len(),
            params.len() == args.len(),
            ps == view_asts(params@),
            vs == view_dts(args@),
            te == view_env(types_env@),
            ps.len() == params.len(),
            vs.len() == args.len(),
            forall|j: int| 0 <= j < params.len() ==> #[trigger] ps[j] == view_ast(params@[j]),
            forall|j: int| 0 <= j < args.len() ==> #[trigger] vs[j] == view_dt(*args@[j]),
            whole == bind_params(ps, vs, te, view_env(old(vars)@)),
            whole == bind_params(ps.skip(i as int), vs.skip(i as int), te, view_env(vars@)),
        decreases params.len() - i,
    {
        proof {
            assert(ps.skip(i as int)[0] == ps[i as int]);
            assert(vs.skip(i as int)[0] == vs[i as int]);
            assert(ps.skip(i as int).drop_first() =~= ps.skip(i + 1));
            assert(vs.skip(i as int).drop_first() =~= vs.skip(i + 1));
        }
        let t = match expected_param_type(&params[i], types_env) {
            Ok(t) => t,
            Err(e) => {
                return Err(e);
            }
        };
        let found = TypeInfo::from_datatype(&*args[i]);
        if !type_eq(&t, &found) {
            return Err(LangError::TypeError { expected: t, found });
        }
        match &params[i] {
            Ast::SExpr(s) => {
                let (_k, x, _y) = decompose(s);
                match x {
                    Ast::ValueIdentifier(id) => {
                        let name = copy_string(id);
                        let value = share(&args[i]);
                        let ghost s0 = vars@;
                        let ghost gn = name;
                        let ghost gv = value;
                        put_field(vars, name, value);
                        proof {
                            lemma_env_put(s0, gn, gv);
                        }
                    }
                    other => {
                        proof {
                            if let Ast::SExpr(s2) = other {
                                lemma_view_sexpr_is_op(*s2);
                            }
                        }
                        return Err(LangError::IdentifierDoesntExist);
                    }
                }
            }
            _ => {
                return Err(LangError::InvalidFunctionPrototypeFormatting);
            }
        }
        i = i + 1;
    }
    proof {
        assert(ps.skip(i as int).len() == 0);
    }
    Ok(())
}

/// The field types of a struct declaration `{ name: Type ... }`, names ascending.
fn struct_field_types(list: &Vec<Ast>) -> (r: Result<Vec<(String, TypeInfo)>, LangError>)
    ensures
        match r {
            Ok(m) => declared_fields(view_asts(list@), Seq::empty()) == Ok::<Seq<(Seq<char>, TypeV)>, LangErrorV>(view_ty_fields(m@)),
            Err(e) => declared_fields(view_asts(list@), Seq::empty()) == Err::<Seq<(Seq<char>, TypeV)>, LangErrorV>(e@),
        },
{
    let ghost l = view_asts(list@);
    let ghost whole = declared_fields(l, Seq::empty());
    proof {
        lemma_view_asts(list@);
        assert(l.skip(0) =~= l);
    }
    let mut acc: Vec<(String, TypeInfo)> = Vec::new();
    assert(view_ty_fields(acc@) =~= Seq::<(Seq<char>, TypeV)>::empty());
    let mut i: usize = 0;
    while i < list.len()
        invariant
            i <= list.len(),
            l == view_asts(list@),
            l.len() == list.len(),
            forall|j: int| 0 <= j < list.len() ==> #[trigger] l[j] == view_ast(list@[j]),
            whole == declared_fields(l, Seq::empty()),
            whole == declared_fields(l.skip(i as int), view_ty_fields(acc@)),
        decreases list.len() - i,
    {
        proof {
            assert(l.skip(i as int)[0] == l[i as int]);
            assert(l.skip(i as int).drop_first() =~= l.skip(i + 1));
        }
        match &list[i] {
            Ast::SExpr(s) => {
                let (k, x, y) = decompose(s);
                if k == SKind::TypeAssignment {
                    match x {
                        Ast::ValueIdentifier(name) => match y.unwrap() {
                            Ast::Type(t) => {
                                let nm = copy_string(name);
                                let ty = copy_type(t);
                                let ghost a0 = acc@;
                                let ghost gn = nm;
                                let ghost gt = ty;
                                put_field(&mut acc, nm, ty);
                                proof {
                                    lemma_raw_put_ty(a0, gn, gt);
                                }
                            }
                            other => {
                                proof {
                                    if let Ast::SExpr(s2) = other {
                                        lemma_view_sexpr_is_op(*s2);
                                    }
                                }
                                return Err(LangError::FieldTypeNotSupplied);
                            }
                        },
                        other => {
                            proof {
                                if let Ast::SExpr(s2) = other {
                                    lemma_view_sexpr_is_op(*s2);
                                }
                            }
                            return Err(LangError::FieldIdentifierNotSupplied);
                        }
                    }
                } else {
                    return Err(LangError::NonAssignmentInStructDeclaration);
                }
            }
            _ => {
                return Err(LangError::ExpectedExpression);
            }
        }
        i = i + 1;
    }
    proof {
        assert(l.skip(i as int).len() == 0);
    }
    Ok(acc)
}

/// Declares a struct: its name is bound to the struct type.
fn declare_struct_x(a: &Ast, b: &Ast, ctx: &mut Context) -> (r: LangResult)
    ensures
        performs(*old(ctx), *final(ctx), declare_struct(a@, b@, old(ctx).env()), r),
{
    match a {
        Ast::ValueIdentifier(id) => match b {
            Ast::ExpressionList(list) => match struct_field_types(list) {
                Err(e) => Err(e),
                Ok(m) => {
                    let st = Rc::new(Datatype::StructType {
                        identifier: copy_string(id),
                        type_information: TypeInfo::Struct { map: m },
                    });
                    let nm = copy_string(id);
                    let value = share(&st);
                    let ghost s0 = ctx.variables@;
                    let ghost gn = nm;
                    let ghost gv = value;
                    put_field(&mut ctx.variables, nm, value);
                    proof {
                        lemma_env_put(s0, gn, gv);
                    }
                    Ok(st)
                }
            },
            other => {
                proof {
                    if let Ast::SExpr(s2) = other {
                        lemma_view_sexpr_is_op(*s2);
                    }
                }
                Err(LangError::StructBodyNotSupplied)
            }
        },
        other => {
            proof {
                if let Ast::SExpr(s2) = other {
                    lemma_view_sexpr_is_op(*s2);
                }
            }
            Err(LangError::StructNameNotSupplied)
        }
    }
}

/// The numbers from `start` up to, not including, `end`.
fn numbers_between(start: i32, end: i32) -> (v: Vec<Rc<Datatype>>)
    ensures
        view_dts(v@) == range_values(start, end),
{
    let mut v: Vec<Rc<Datatype>> = Vec::new();
    assert(view_dts(v@) =~= Seq::<DatatypeV>::empty());
    if start < end {
        let mut j: i32 = start;
        while j < end
            invariant
                start <= j <= end,
                view_dts(v@) =~= Seq::new((j - start) as nat, |i: int| DatatypeV::Number((start + i) as i32)),
            decreases end - j,
        {
            let n = Rc::new(Datatype::Number(j));
            proof {
                lemma_view_dts_push(v@, n);
            }
            v.push(n);
            j = j + 1;
            assert(view_dts(v@) =~= Seq::new((j - start) as nat, |i: int| DatatypeV::Number((start + i) as i32)));
        }
        assert(range_values(start, end) =~= Seq::new((j - start) as nat, |i: int| DatatypeV::Number((start + i) as i32)));
    } else {
        assert(range_values(start, end) =~= Seq::<DatatypeV>::empty());
    }
    v
}

/// Finds what reading the file `name` gave.
fn find_include(inc: &Vec<(String, Loaded)>, name: &String) -> (r: Option<usize>)
    ensures
        match r {
            Some(j) => j < inc.len() && include_get(view_includes(inc@), name@) == Some(view_loaded(inc@[j as int].1)),
            None => include_get(view_includes(inc@), name@) is None,
        },
{
    let ghost all = view_includes(inc@);
    let mut i: usize = 0;
    assert(all.skip(0) =~= all);
    while i < inc.len()
        invariant
            i <= inc.len(),
            all == view_includes(inc@),
            include_get(all, name@) == include_get(all.skip(i as int), name@),
        decreases inc.len() - i,
    {
        assert(all.skip(i as int)[0] == all[i as int]);
        if inc[i].0 == *name {
            return Some(i);
        }
        assert(all.skip(i as int).drop_first() =~= all.skip(i + 1));
        i = i + 1;
    }
    None
}

/// Evaluates an expression within a budget of `fuel` steps.
fn eval_ast(a: &Ast, ctx: &mut Context, fuel: u64) -> (r: LangResult)
    ensures
        performs(*old(ctx), *final(ctx), eval(a@, old(ctx).env(), old(ctx).inc(), fuel as nat), r),
    decreases fuel, 1nat, 0nat,
{
    if fuel == 0 {
        return Err(LangError::StepLimitReached);
    }
    let f = fuel - 1;
    match a {
        Ast::SExpr(s) => {
            let (k, x, y) = decompose(s);
            eval_operator(k, x, y, ctx, fuel)
        }
        Ast::ExpressionList(list) => eval_sequence(list, ctx, f),
        Ast::Conditional { condition, true_expr, false_expr } => {
            let ghost c0 = *ctx;
            let c = eval_ast(&**condition, ctx, f);
            let ghost c1 = *ctx;
            let ghost oc = eval((**condition)@, c0.env(), c0.inc(), f as nat);
            match c {
                Err(e) => Err(e),
                Ok(v) => match &*v {
                    Datatype::Bool(b) => {
                        if *b {
                            let r = eval_ast(&**true_expr, ctx, f);
                            proof {
                                lemma_then_printed(c0, c1, *ctx, oc, eval((**true_expr)@, c1.env(), c1.inc(), f as nat));
                            }
                            r
                        } else {
                            match false_expr {
                                Some(e) => {
                                    let r = eval_ast(&**e, ctx, f);
                                    proof {
                                        lemma_then_printed(c0, c1, *ctx, oc, eval((**e)@, c1.env(), c1.inc(), f as nat));
                                    }
                                    r
                                }
                                None => Ok(Rc::new(Datatype::Nothing)),
                            }
                        }
                    }
                    _ => Err(LangError::ConditionOnNonBoolean),
                },
            }
        }
        Ast::Literal(d) => Ok(Rc::new(copy_datatype(d))),
        Ast::Type(t) => Err(LangError::TriedToEvaluateTypeInfo(copy_type(t))),
        Ast::ValueIdentifier(id) => {
            proof {
                lemma_env_get(ctx.variables@, id@);
            }
            match get_field(&ctx.variables, id) {
                Some(v) => Ok(share(v)),
                None => Err(LangError::VariableDoesntExist(missing_message(id))),
            }
        }
    }
}

/// Evaluates the expressions of a list in turn; the value is that of the last one.
fn eval_sequence(list: &Vec<Ast>, ctx: &mut Context, f: u64) -> (r: LangResult)
    ensures
        performs(*old(ctx), *final(ctx), eval_list(view_asts(list@), old(ctx).env(), old(ctx).inc(), f as nat, DatatypeV::Nothing), r),
    decreases f, 2nat, 0nat,
{
    let ghost l = view_asts(list@);
    let ghost c0 = *ctx;
    let ghost whole = eval_list(l, c0.env(), c0.inc(), f as nat, DatatypeV::Nothing);
    proof {
        lemma_view_asts(list@);
        assert(l.skip(0) =~= l);
    }
    let mut last: Rc<Datatype> = Rc::new(Datatype::Nothing);
    let mut i: usize = 0;
    while i < list.len()
        invariant
            i <= list.len(),
            l == view_asts(list@),
            l.len() == list.len(),
            forall|j: int| 0 <= j < list.len() ==> #[trigger] l[j] == view_ast(list@[j]),
            c0 == *old(ctx),
            whole == eval_list(l, c0.env(), c0.inc(), f as nat, DatatypeV::Nothing),
            ctx.includes@ == c0.includes@,
            ({
                let rest = eval_list(l.skip(i as int), ctx.env(), c0.inc(), f as nat, view_dt(*last));
                &&& whole.result == rest.result
                &&& whole.env == rest.env
                &&& c0.printed() + whole.printed == ctx.printed() + rest.printed
            }),
        decreases list.len() - i,
    {
        let ghost cb = *ctx;
        proof {
            assert(l.skip(i as int)[0] == l[i as int]);
            assert(l.skip(i as int).drop_first() =~= l.skip(i + 1));
        }
        let r = eval_ast(&list[i], ctx, f);
        let ghost o = eval(l[i as int], cb.env(), c0.inc(), f as nat);
        match r {
            Err(e) => {
                return Err(e);
            }
            Ok(v) => {
                proof {
                    let rest2 = eval_list(l.skip(i + 1), ctx.env(), c0.inc(), f as nat, v@);
                    lemma_concat3(cb.printed(), o.printed, rest2.printed);
                }
                last = v;
            }
        }
        i = i + 1;
    }
    proof {
        assert(l.skip(i as int).len() == 0);
    }
    Ok(last)
}

/// Evaluates an operator with its operands.
fn eval_operator(k: SKind, x: &Ast, y: Option<&Ast>, ctx: &mut Context, fuel: u64) -> (r: LangResult)
    requires
        fuel > 0,
        y is Some <==> !is_unary(k),
    ensures
        performs(*old(ctx), *final(ctx), eval_op(k, operands(x, y), old(ctx).env(), old(ctx).inc(), fuel as nat), r),
    decreases fuel, 0nat, 0nat,
{
    let f = fuel - 1;
    if combining(k) {
        eval_combine_x(k, x, y.unwrap(), ctx, f)
    } else if k == SKind::LogicalAnd || k == SKind::LogicalOr {
        eval_logical_x(k, x, y.unwrap(), ctx, f)
    } else if binding(k) {
        eval_binding_x(x, y.unwrap(), ctx, f)
    } else {
        match k {
            SKind::Loop => run_loop(x, y.unwrap(), ctx, f),
            SKind::AccessArray => eval_index_x(x, y.unwrap(), ctx, f),
            SKind::GetArrayLength => eval_length_x(x, ctx, f),
            SKind::Range => eval_range_x(x, y.unwrap(), ctx, f),
            SKind::StructDeclaration => declare_struct_x(x, y.unwrap(), ctx),
            SKind::AccessStructField => eval_field_x(x, y.unwrap(), ctx, f),
            SKind::CreateStruct => eval_new_struct_x(x, y.unwrap(), ctx, f),
            SKind::ExecuteFn => eval_call_x(x, y.unwrap(), ctx, f),
            SKind::Print => eval_print_x(x, ctx, f),
            SKind::Include => eval_include_x(x, ctx, f),
            _ => eval_unary_x(k, x, ctx, f),
        }
    }
}

fn eval_combine_x(k: SKind, a: &Ast, b: &Ast, ctx: &mut Context, f: u64) -> (r: LangResult)
    requires
        is_combining(k),
    ensures
        performs(*old(ctx), *final(ctx), eval_combine(k, a@, b@, old(ctx).env(), old(ctx).inc(), f as nat), r),
    decreases f, 2nat, 0nat,
{
    let ghost c0 = *ctx;
    let l = eval_ast(a, ctx, f);
    let ghost c1 = *ctx;
    match l {
        Err(e) => Err(e),
        Ok(lv) => {
            let rv = eval_ast(b, ctx, f);
            proof {
                lemma_concat3(c0.printed(), eval(a@, c0.env(), c0.inc(), f as nat).printed, eval(b@, c1.env(), c1.inc(), f as nat).printed);
            }
            match rv {
                Err(e) => Err(e),
                Ok(rv) => combine_values(k, &*lv, &*rv),
            }
        }
    }
}

/// The type of a value, reported when a logical operand is no boolean.
fn not_boolean(w: &Datatype) -> (e: LangError)
    ensures
        e@ == LangErrorV::TypeError(TypeV::Bool, type_of(w@)),
{
    LangError::TypeError { expected: TypeInfo::Bool, found: TypeInfo::from_datatype(w) }
}

fn eval_logical_x(k: SKind, lhs: &Ast, rhs: &Ast, ctx: &mut Context, f: u64) -> (r: LangResult)
    requires
        k == SKind::LogicalAnd || k == SKind::LogicalOr,
    ensures
        performs(*old(ctx), *final(ctx), eval_logical(k, lhs@, rhs@, old(ctx).env(), old(ctx).inc(), f as nat), r),
    decreases f, 2nat, 0nat,
{
    let ghost c0 = *ctx;
    let first = eval_ast(lhs, ctx, f);
    let ghost c1 = *ctx;
    let ghost o1 = eval(lhs@, c0.env(), c0.inc(), f as nat);
    match first {
        Err(e) => Err(e),
        Ok(v1) => match &*v1 {
            Datatype::Bool(x) => {
                let second = eval_ast(rhs, ctx, f);
                let ghost o2 = eval(rhs@, c1.env(), c1.inc(), f as nat);
                proof {
                    lemma_concat3(c0.printed(), o1.printed, o2.printed);
                }
                match second {
                    Err(e) => Err(e),
                    Ok(v2) => match &*v2 {
                        Datatype::Bool(y) => {
                            let b = if k == SKind::LogicalAnd { *x && *y } else { *x || *y };
                            Ok(Rc::new(Datatype::Bool(b)))
                        }
                        _ => Err(not_boolean(&*v2)),
                    },
                }
            }
            _ => Err(not_boolean(&*v1)),
        },
    }
}

fn eval_binding_x(a: &Ast, b: &Ast, ctx: &mut Context, f: u64) -> (r: LangResult)
    ensures
        performs(*old(ctx), *final(ctx), eval_binding(a@, b@, old(ctx).env(), old(ctx).inc(), f as nat), r),
    decreases f, 2nat, 0nat,
{
    match a {
        Ast::ValueIdentifier(id) => {
            let saved = copy_variables(&ctx.variables);
            let r = eval_ast(b, ctx, f);
            ctx.variables = saved;
            match r {
                Err(e) => Err(e),
                Ok(v) => {
                    let name = copy_string(id);
                    let value = share(&v);
                    let ghost s0 = ctx.variables@;
                    let ghost gn = name;
                    let ghost gv = value;
                    put_field(&mut ctx.variables, name, value);
                    proof {
                        lemma_env_put(s0, gn, gv);
                    }
                    Ok(v)
                }
            }
        }
        other => {
            proof {
                if let Ast::SExpr(s2) = other {
                    lemma_view_sexpr_is_op(*s2);
                }
            }
            Err(LangError::IdentifierDoesntExist)
        }
    }
}

/// Runs `while cond { body }`.
fn run_loop(c: &Ast, body: &Ast, ctx: &mut Context, f: u64) -> (r: LangResult)
    ensures
        performs(*old(ctx), *final(ctx), eval_loop(c@, body@, old(ctx).env(), old(ctx).inc(), f as nat, DatatypeV::Nothing), r),
    decreases f, 2nat, 0nat,
{
    let ghost c0 = *ctx;
    let ghost whole = eval_loop(c@, body@, c0.env(), c0.inc(), f as nat, DatatypeV::Nothing);
    let mut g: u64 = f;
    let mut last: Rc<Datatype> = Rc::new(Datatype::Nothing);
    loop
        invariant
            g <= f,
            c0 == *old(ctx),
            whole == eval_loop(c@, body@, c0.env(), c0.inc(), f as nat, DatatypeV::Nothing),
            ctx.includes@ == c0.includes@,
            ({
                let rest = eval_loop(c@, body@, ctx.env(), c0.inc(), g as nat, view_dt(*last));
                &&& whole.result == rest.result
                &&& whole.env == rest.env
                &&& c0.printed() + whole.printed == ctx.printed() + rest.printed
            }),
        decreases g,
    {
        if g == 0 {
            return Err(LangError::StepLimitReached);
        }
        let ghost cb = *ctx;
        let cv = eval_ast(c, ctx, g);
        let ghost c1 = *ctx;
        let ghost oc = eval(c@, cb.env(), c0.inc(), g as nat);
        match cv {
            Err(e) => {
                return Err(e);
            }
            Ok(cv) => match &*cv {
                Datatype::Bool(b) => {
                    if *b {
                        let bv = eval_ast(body, ctx, g);
                        let ghost ob = eval(body@, c1.env(), c0.inc(), g as nat);
                        proof {
                            lemma_concat3(cb.printed(), oc.printed, ob.printed);
                        }
                        match bv {
                            Err(e) => {
                                return Err(e);
                            }
                            Ok(bv) => {
                                proof {
                                    let rest2 = eval_loop(c@, body@, ctx.env(), c0.inc(), (g - 1) as nat, bv@);
                                    lemma_concat3(cb.printed(), oc.printed + ob.printed, rest2.printed);
                                    lemma_concat3(cb.printed() + oc.printed, ob.printed, rest2.printed);
                                }
                                last = bv;
                                g = g - 1;
                            }
                        }
                    } else {
                        return Ok(last);
                    }
                }
                _ => {
                    return Err(LangError::ConditionalNotBoolean(TypeInfo::from_datatype(&*cv)));
                }
            },
        }
    }
}

fn eval_index_x(a: &Ast, b: &Ast, ctx: &mut Context, f: u64) -> (r: LangResult)
    ensures
        performs(*old(ctx), *final(ctx), eval_index(a@, b@, old(ctx).env(), old(ctx).inc(), f as nat), r),
    decreases f, 2nat, 0nat,
{
    let ghost c0 = *ctx;
    let d = eval_ast(a, ctx, f);
    let ghost c1 = *ctx;
    match d {
        Err(e) => Err(e),
        Ok(d) => match &*d {
            Datatype::Array { value, .. } => {
                let iv = eval_ast(b, ctx, f);
                proof {
                    lemma_concat3(c0.printed(), eval(a@, c0.env(), c0.inc(), f as nat).printed, eval(b@, c1.env(), c1.inc(), f as nat).printed);
                    lemma_view_dts(value@);
                }
                match iv {
                    Err(e) => Err(e),
                    Ok(iv) => match &*iv {
                        Datatype::Number(i) => {
                            if *i >= 0 {
                                let iu = *i as usize;
                                if iu < value.len() {
                                    Ok(share(&value[iu]))
                                } else {
                                    Err(LangError::OutOfBoundsArrayAccess)
                                }
                            } else {
                                Err(LangError::NegativeIndex(*i))
                            }
                        }
                        _ => Err(LangError::InvalidIndexType(copy_datatype(&*iv))),
                    },
                }
            }
            _ => Err(LangError::ArrayAccessOnNonArry(TypeInfo::from_datatype(&*d))),
        },
    }
}

fn eval_length_x(a: &Ast, ctx: &mut Context, f: u64) -> (r: LangResult)
    ensures
        performs(*old(ctx), *final(ctx), eval_length(a@, old(ctx).env(), old(ctx).inc(), f as nat), r),
    decreases f, 2nat, 0nat,
{
    let d = eval_ast(a, ctx, f);
    match d {
        Err(e) => Err(e),
        Ok(d) => match &*d {
            Datatype::Array { value, .. } => {
                proof {
                    lemma_view_dts(value@);
                }
                Ok(Rc::new(Datatype::Number(value.len() as i32)))
            }
            _ => Err(LangError::TriedToGetLengthOfNonArray),
        },
    }
}

fn eval_range_x(a: &Ast, b: &Ast, ctx: &mut Context, f: u64) -> (r: LangResult)
    ensures
        performs(*old(ctx), *final(ctx), eval_range(a@, b@, old(ctx).env(), old(ctx).inc(), f as nat), r),
    decreases f, 2nat, 0nat,
{
    let ghost c0 = *ctx;
    let s = eval_ast(a, ctx, f);
    let ghost c1 = *ctx;
    match s {
        Err(e) => Err(e),
        Ok(sv) => match &*sv {
            Datatype::Number(start) => {
                let e = eval_ast(b, ctx, f);
                proof {
                    lemma_concat3(c0.printed(), eval(a@, c0.env(), c0.inc(), f as nat).printed, eval(b@, c1.env(), c1.inc(), f as nat).printed);
                }
                match e {
                    Err(er) => Err(er),
                    Ok(ev) => match &*ev {
                        Datatype::Number(end) => Ok(Rc::new(Datatype::Array { value: numbers_between(*start, *end), type_: TypeInfo::Number })),
                        _ => Err(LangError::RangeValueIsntNumber),
                    },
                }
            }
            _ => Err(LangError::RangeValueIsntNumber),
        },
    }
}

fn eval_field_x(a: &Ast, b: &Ast, ctx: &mut Context, f: u64) -> (r: LangResult)
    ensures
        performs(*old(ctx), *final(ctx), eval_field(a@, b@, old(ctx).env(), old(ctx).inc(), f as nat), r),
    decreases f, 2nat, 0nat,
{
    let d = eval_ast(a, ctx, f);
    match d {
        Err(e) => Err(e),
        Ok(d) => match &*d {
            Datatype::Struct { map } => match b {
                Ast::ValueIdentifier(name) => {
                    proof {
                        lemma_raw_get_dt(map@, name@);
                    }
                    match get_field(map, name) {
                        Some(x) => Ok(Rc::new(copy_datatype(x))),
                        None => Err(LangError::StructFieldDoesntExist),
                    }
                }
                other => {
                    proof {
                        if let Ast::SExpr(s2) = other {
                            lemma_view_sexpr_is_op(*s2);
                        }
                    }
                    Err(LangError::IdentifierDoesntExist)
                }
            },
            _ => Err(LangError::TriedToAccessNonStruct),
        },
    }
}

/// Builds the fields of a new struct instance from `name: value` assignments.
fn fill_struct(list: &Vec<Ast>, types: &Vec<(String, TypeInfo)>, ctx: &mut Context, f: u64) -> (r: LangResult)
    ensures
        performs(
            *old(ctx),
            *final(ctx),
            create_fields(view_asts(list@), view_ty_fields(types@), old(ctx).env(), old(ctx).inc(), f as nat, Seq::empty()),
            r,
        ),
    decreases f, 2nat, 0nat,
{
    let ghost l = view_asts(list@);
    let ghost t = view_ty_fields(types@);
    let ghost c0 = *ctx;
    let ghost whole = create_fields(l, t, c0.env(), c0.inc(), f as nat, Seq::empty());
    proof {
        lemma_view_asts(list@);
        assert(l.skip(0) =~= l);
    }
    let mut acc: Vec<(String, Datatype)> = Vec::new();
    assert(view_dt_fields(acc@) =~= Seq::<(Seq<char>, DatatypeV)>::empty());
    let mut i: usize = 0;
    while i < list.len()
        invariant
            i <= list.len(),
            l == view_asts(list@),
            l.len() == list.len(),
            forall|j: int| 0 <= j < list.len() ==> #[trigger] l[j] == view_ast(list@[j]),
            t == view_ty_fields(types@),
            c0 == *old(ctx),
            whole == create_fields(l, t, c0.env(), c0.inc(), f as nat, Seq::empty()),
            ctx.includes@ == c0.includes@,
            ({
                let rest = create_fields(l.skip(i as int), t, ctx.env(), c0.inc(), f as nat, view_dt_fields(acc@));
                &&& whole.result == rest.result
                &&& whole.env == rest.env
                &&& c0.printed() + whole.printed == ctx.printed() + rest.printed
            }),
        decreases list.len() - i,
    {
        proof {
            assert(l.skip(i as int)[0] == l[i as int]);
            assert(l.skip(i as int).drop_first() =~= l.skip(i + 1));
        }
        match &list[i] {
            Ast::SExpr(s) => {
                let (k, x, y) = decompose(s);
                if k == SKind::FieldAssignment {
                    match x {
                        Ast::ValueIdentifier(name) => {
                            proof {
                                lemma_raw_get_ty(types@, name@);
                            }
                            match get_field(types, name) {
                                None => {
                                    return Err(LangError::IdentifierDoesntExist);
                                }
                                Some(ty) => {
                                    let ghost cb = *ctx;
                                    let v = eval_ast(y.unwrap(), ctx, f);
                                    let ghost o = eval((*y.unwrap())@, cb.env(), c0.inc(), f as nat);
                                    match v {
                                        Err(e) => {
                                            return Err(e);
                                        }
                                        Ok(v) => {
                                            let vt = TypeInfo::from_datatype(&*v);
                                            if type_eq(ty, &vt) {
                                                let nm = copy_string(name);
                                                let dv = copy_datatype(&*v);
                                                let ghost a0 = acc@;
                                                let ghost gn = nm;
                                                let ghost gd = dv;
                                                put_field(&mut acc, nm, dv);
                                                proof {
                                                    lemma_raw_put_dt(a0, gn, gd);
                                                    let rest2 = create_fields(l.skip(i + 1), t, ctx.env(), c0.inc(), f as nat, view_dt_fields(acc@));
                                                    lemma_concat3(cb.printed(), o.printed, rest2.printed);
                                                }
                                            } else {
                                                return Err(LangError::TypeError { expected: copy_type(ty), found: vt });
                                            }
                                        }
                                    }
                                }
                            }
                        }
                        other => {
                            proof {
                                if let Ast::SExpr(s2) = other {
                                    lemma_view_sexpr_is_op(*s2);
                                }
                            }
                            return Err(LangError::ExpectedIdentifier);
                        }
                    }
                } else {
                    return Err(LangError::NonAssignmentInStructInit);
                }
            }
            _ => {
                return Err(LangError::NonAssignmentInStructInit);
            }
        }
        i = i + 1;
    }
    proof {
        assert(l.skip(i as int).len() == 0);
    }
    Ok(Rc::new(Datatype::Struct { map: acc }))
}

fn eval_new_struct_x(a: &Ast, b: &Ast, ctx: &mut Context, f: u64) -> (r: LangResult)
    ensures
        performs(*old(ctx), *final(ctx), eval_new_struct(a@, b@, old(ctx).env(), old(ctx).inc(), f as nat), r),
    decreases f, 3nat, 0nat,
{
    let ghost c0 = *ctx;
    let d = eval_ast(a, ctx, f);
    let ghost c1 = *ctx;
    match d {
        Err(e) => Err(e),
        Ok(d) => match &*d {
            Datatype::StructType { type_information, .. } => match type_information {
                TypeInfo::Struct { map: types } => match b {
                    Ast::ExpressionList(list) => {
                        let r = fill_struct(list, types, ctx, f);
                        proof {
                            lemma_then_printed(
                                c0,
                                c1,
                                *ctx,
                                eval(a@, c0.env(), c0.inc(), f as nat),
                                create_fields(view_asts(list@), view_ty_fields(types@), c1.env(), c1.inc(), f as nat, Seq::empty()),
                            );
                        }
                        r
                    }
                    other => {
                        proof {
                            if let Ast::SExpr(s2) = other {
                                lemma_view_sexpr_is_op(*s2);
                            }
                        }
                        Err(LangError::StructBodyNotSupplied)
                    }
                },
                _ => Err(LangError::ExpectedIdentifier),
            },
            _ => Err(LangError::ExpectedIdentifier),
        },
    }
}

/// Evaluates the arguments of a call in turn.
fn eval_arguments(exprs: &Vec<Ast>, ctx: &mut Context, f: u64) -> (r: Result<Vec<Rc<Datatype>>, LangError>)
    ensures
        ({
            let ea = eval_args(view_asts(exprs@), old(ctx).env(), old(ctx).inc(), f as nat);
            &&& match r {
                Ok(v) => ea.0 == Ok::<Seq<DatatypeV>, LangErrorV>(view_dts(v@)),
                Err(e) => ea.0 == Err::<Seq<DatatypeV>, LangErrorV>(e@),
            }
            &&& final(ctx).env() == ea.1
            &&& final(ctx).printed() == old(ctx).printed() + ea.2
            &&& final(ctx).includes@ == old(ctx).includes@
        }),
    decreases f, 2nat, 0nat,
{
    let ghost l = view_asts(exprs@);
    let ghost c0 = *ctx;
    let ghost whole = eval_args(l, c0.env(), c0.inc(), f as nat);
    proof {
        lemma_view_asts(exprs@);
        assert(l.skip(0) =~= l);
    }
    let mut vals: Vec<Rc<Datatype>> = Vec::new();
    assert(view_dts(vals@) =~= Seq::<DatatypeV>::empty());
    let mut i: usize = 0;
    while i < exprs.len()
        invariant
            i <= exprs.len(),
            l == view_asts(exprs@),
            l.len() == exprs.len(),
            forall|j: int| 0 <= j < exprs.len() ==> #[trigger] l[j] == view_ast(exprs@[j]),
            c0 == *old(ctx),
            whole == eval_args(l, c0.env(), c0.inc(), f as nat),
            ctx.includes@ == c0.includes@,
            ({
                let rest = eval_args(l.skip(i as int), ctx.env(), c0.inc(), f as nat);
                &&& whole.0 == prepend_ok(view_dts(vals@), rest.0)
                &&& whole.1 == rest.1
                &&& c0.printed() + whole.2 == ctx.printed() + rest.2
            }),
        decreases exprs.len() - i,
    {
        proof {
            assert(l.skip(i as int)[0] == l[i as int]);
            assert(l.skip(i as int).drop_first() =~= l.skip(i + 1));
        }
        let ghost cb = *ctx;
        let v = eval_ast(&exprs[i], ctx, f);
        let ghost o = eval(l[i as int], cb.env(), c0.inc(), f as nat);
        match v {
            Err(e) => {
                return Err(e);
            }
            Ok(v) => {
                proof {
                    let rest2 = eval_args(l.skip(i + 1), ctx.env(), c0.inc(), f as nat);
                    lemma_concat3(cb.printed(), o.printed, rest2.2);
                    lemma_view_dts_push(vals@, v);
                    let done = view_dts(vals@);
                    match rest2.0 {
                        Ok(vs) => {
                            assert(done + (seq![v@] + vs) =~= done.push(v@) + vs);
                        }
                        Err(_) => {}
                    }
                }
                vals.push(v);
            }
        }
        i = i + 1;
    }
    proof {
        assert(l.skip(i as int).len() == 0);
        assert(view_dts(vals@) + Seq::<DatatypeV>::empty() =~= view_dts(vals@));
    }
    Ok(vals)
}

/// The values computed so far in front of those still to come, or the error met.
pub open spec fn prepend_ok(done: Seq<DatatypeV>, r: Result<Seq<DatatypeV>, LangErrorV>) -> Result<Seq<DatatypeV>, LangErrorV> {
    match r {
        Ok(vs) => Ok(done + vs),
        Err(e) => Err(e),
    }
}

/// Calls a function: everything happens in a copy of the variables, which
/// are as they were once the call returns.
fn eval_call_x(a: &Ast, b: &Ast, ctx: &mut Context, f: u64) -> (r: LangResult)
    ensures
        performs(*old(ctx), *final(ctx), eval_call(a@, b@, old(ctx).env(), old(ctx).inc(), f as nat), r),
    decreases f, 3nat, 0nat,
{
    match b {
        Ast::ExpressionList(exprs) => {
            let ghost c0 = *ctx;
            let saved = copy_variables(&ctx.variables);
            let args = eval_arguments(exprs, ctx, f);
            let ghost ea = eval_args(view_asts(exprs@), c0.env(), c0.inc(), f as nat);
            match args {
                Err(e) => {
                    ctx.variables = saved;
                    Err(e)
                }
                Ok(vals) => {
                    let ghost c1 = *ctx;
                    let callee = eval_ast(a, ctx, f);
                    let ghost of = eval(a@, c1.env(), c1.inc(), f as nat);
                    proof {
                        lemma_concat3(c0.printed(), ea.2, of.printed);
                    }
                    match callee {
                        Err(e) => {
                            ctx.variables = saved;
                            Err(e)
                        }
                        Ok(cv) => match &*cv {
                            Datatype::Function { parameters, body, return_type } => match &**parameters {
                                Ast::ExpressionList(pl) => {
                                    proof {
                                        lemma_view_asts(pl@);
                                        lemma_view_dts(vals@);
                                    }
                                    if vals.len() != pl.len() {
                                        ctx.variables = saved;
                                        Err(LangError::ParameterLengthMismatch)
                                    } else {
                                        let bound = bind_parameters(pl, &vals, &saved, &mut ctx.variables);
                                        match bound {
                                            Err(e) => {
                                                ctx.variables = saved;
                                                Err(e)
                                            }
                                            Ok(_) => {
                                                let ghost c2 = *ctx;
                                                let out = eval_ast(&**body, ctx, f);
                                                let ghost ob = eval((**body)@, c2.env(), c2.inc(), f as nat);
                                                proof {
                                                    lemma_concat3(c0.printed(), ea.2 + of.printed, ob.printed);
                                                }
                                                match out {
                                                    Err(e) => {
                                                        ctx.variables = saved;
                                                        Err(e)
                                                    }
                                                    Ok(ov) => {
                                                        let rt = resolve_type_x(return_type, &saved);
                                                        ctx.variables = saved;
                                                        match rt {
                                                            Err(e) => Err(e),
                                                            Ok(t) => {
                                                                let ot = TypeInfo::from_datatype(&*ov);
                                                                if type_eq(&ot, &t) {
                                                                    Ok(ov)
                                                                } else {
                                                                    Err(LangError::ReturnTypeDoesNotMatchReturnValue)
                                                                }
                                                            }
                                                        }
                                                    }
                                                }
                                            }
                                        }
                                    }
                                }
                                other => {
                                    proof {
                                        if let Ast::SExpr(s2) = other {
                                            lemma_view_sexpr_is_op(*s2);
                                        }
                                    }
                                    ctx.variables = saved;
                                    Err(LangError::ParserShouldHaveRejected)
                                }
                            },
                            _ => {
                                ctx.variables = saved;
                                Err(LangError::ExecuteNonFunction)
                            }
                        },
                    }
                }
            }
        }
        other => {
            proof {
                if let Ast::SExpr(s2) = other {
                    lemma_view_sexpr_is_op(*s2);
                }
            }
            Err(LangError::FunctionParametersShouldBeExpressionList)
        }
    }
}

fn eval_print_x(a: &Ast, ctx: &mut Context, f: u64) -> (r: LangResult)
    ensures
        performs(*old(ctx), *final(ctx), eval_print(a@, old(ctx).env(), old(ctx).inc(), f as nat), r),
    decreases f, 2nat, 0nat,
{
    let ghost c0 = *ctx;
    let o = eval_ast(a, ctx, f);
    match o {
        Err(e) => Err(e),
        Ok(v) => {
            let label: Option<String> = match a {
                Ast::ValueIdentifier(id) => match &*v {
                    Datatype::Struct { .. } => Some(copy_string(id)),
                    _ => None,
                },
                other => {
                    proof {
                        if let Ast::SExpr(s2) = other {
                            lemma_view_sexpr_is_op(*s2);
                        }
                    }
                    None
                }
            };
            let ghost out0 = ctx.output@;
            let ghost gl = label;
            let shown = share(&v);
            let ghost gs = shown;
            ctx.output.push((label, shown));
            proof {
                let item = (print_label(a@, v@), v@);
                assert(view_label(gl) == print_label(a@, v@));
                assert(view_output(ctx.output@) =~= view_output(out0).push(item));
                let ob = eval(a@, c0.env(), c0.inc(), f as nat);
                assert(c0.printed() + ob.printed.push(item) =~= (c0.printed() + ob.printed).push(item));
            }
            Ok(v)
        }
    }
}

fn eval_include_x(a: &Ast, ctx: &mut Context, f: u64) -> (r: LangResult)
    ensures
        performs(*old(ctx), *final(ctx), eval_include(a@, old(ctx).env(), old(ctx).inc(), f as nat), r),
    decreases f, 2nat, 0nat,
{
    let ghost c0 = *ctx;
    let o = eval_ast(a, ctx, f);
    let ghost c1 = *ctx;
    match o {
        Err(e) => Err(e),
        Ok(v) => match &*v {
            Datatype::String(name) => {
                let found = find_include(&ctx.includes, name);
                match found {
                    Some(j) => {
                        let program: Option<Ast> = match &ctx.includes[j].1 {
                            Loaded::Program(p) => Some(copy_ast(p)),
                            _ => None,
                        };
                        match program {
                            Some(p) => {
                                let r = eval_ast(&p, ctx, f);
                                proof {
                                    lemma_then_printed(c0, c1, *ctx, eval(a@, c0.env(), c0.inc(), f as nat), eval(p@, c1.env(), c1.inc(), f as nat));
                                }
                                r
                            }
                            None => match &ctx.includes[j].1 {
                                Loaded::Unreadable(reason) => Err(LangError::CouldNotReadFile {
                                    filename: copy_string(name),
                                    reason: copy_string(reason),
                                }),
                                Loaded::Unparsable(reason) => Err(LangError::CouldNotParseFile {
                                    filename: copy_string(name),
                                    reason: copy_string(reason),
                                }),
                                Loaded::Program(_) => Err(LangError::InitState),
                            },
                        }
                    }
                    None => Err(LangError::CouldNotReadFile {
                        filename: copy_string(name),
                        reason: String::from_str("the file was not loaded"),
                    }),
                }
            }
            _ => Err(LangError::CouldNotReadFile {
                filename: String::from_str("Not provided"),
                reason: String::from_str("File name was not a string."),
            }),
        },
    }
}

fn eval_unary_x(k: SKind, a: &Ast, ctx: &mut Context, f: u64) -> (r: LangResult)
    ensures
        performs(*old(ctx), *final(ctx), eval_unary(k, a@, old(ctx).env(), old(ctx).inc(), f as nat), r),
    decreases f, 2nat, 0nat,
{
    let o = eval_ast(a, ctx, f);
    match o {
        Err(e) => Err(e),
        Ok(v) => unary(k, &*v),
    }
}

/// The budget of steps given to a whole program: so large that only a
/// program that never stops reaches it.
pub const STEP_BUDGET: u64 = 0xffff_ffff_ffff_ffff;

/// Whether the expression declares a function.
pub open spec fn is_function_declaration(a: AstV) -> bool {
    match a {
        AstV::Op(k, _) => k == SKind::DeclareFunction,
        _ => false,
    }
}

/// Whether the expression declares a struct type.
pub open spec fn is_struct_declaration(a: AstV) -> bool {
    match a {
        AstV::Op(k, _) => k == SKind::StructDeclaration,
        _ => false,
    }
}

pub open spec fn struct_declarations() -> spec_fn(AstV) -> bool {
    |a: AstV| is_struct_declaration(a)
}

pub open spec fn function_declarations() -> spec_fn(AstV) -> bool {
    |a: AstV| is_function_declaration(a)
}

pub open spec fn other_expressions() -> spec_fn(AstV) -> bool {
    |a: AstV| !is_struct_declaration(a) && !is_function_declaration(a)
}

/// A top-level list with its struct declarations first, then its function
/// declarations, then everything else, each group in the order it had.
pub open spec fn hoisted(list: Seq<AstV>) -> Seq<AstV> {
    list.filter(struct_declarations()) + list.filter(function_declarations()) + list.filter(other_expressions())
}

/// Whether the expression declares a function named `main`.
pub open spec fn declares_main(a: AstV) -> bool {
    match a {
        AstV::Op(k, args) => k == SKind::DeclareFunction && args[0] == AstV::ValueIdentifier("main"@),
        _ => false,
    }
}

/// Whether a program, a list of expressions, declares `main` at its top level.
pub open spec fn has_main(a: AstV) -> bool {
    a is ExpressionList && main_declared_in(a->ExpressionList_0)
}

/// Whether one of the expressions declares `main`.
pub open spec fn main_declared_in(l: Seq<AstV>) -> bool {
    exists|i: int| 0 <= i < l.len() && #[trigger] declares_main(l[i])
}

/// The call `main()`.
pub open spec fn main_call() -> AstV {
    AstV::Op(SKind::ExecuteFn, seq![AstV::ValueIdentifier("main"@), AstV::ExpressionList(Seq::empty())])
}

/// The expressions of `list` for which `keep` holds, in order.
fn select(list: &Vec<Ast>, which: u8) -> (r: Vec<Ast>)
    requires
        which < 3,
    ensures
        view_asts(r@) == view_asts(list@).filter(
            if which == 0 { struct_declarations() } else if which == 1 { function_declarations() } else { other_expressions() },
        ),
{
    let ghost l = view_asts(list@);
    let ghost pred = if which == 0 { struct_declarations() } else if which == 1 { function_declarations() } else { other_expressions() };
    proof {
        lemma_view_asts(list@);
        reveal(Seq::filter);
        assert(l.take(0) =~= Seq::<AstV>::empty());
    }
    let mut r: Vec<Ast> = Vec::new();
    assert(view_asts(r@) =~= Seq::<AstV>::empty());
    let mut i: usize = 0;
    while i < list.len()
        invariant
            i <= list.len(),
            which < 3,
            l == view_asts(list@),
            l.len() == list.len(),
            pred == (if which == 0 { struct_declarations() } else if which == 1 { function_declarations() } else { other_expressions() }),
            forall|j: int| 0 <= j < list.len() ==> #[trigger] l[j] == view_ast(list@[j]),
            view_asts(r@) == l.take(i as int).filter(pred),
        decreases list.len() - i,
    {
        let (is_struct, is_fn) = match &list[i] {
            Ast::SExpr(s) => {
                let (k, _, _) = decompose(s);
                (k == SKind::StructDeclaration, k == SKind::DeclareFunction)
            }
            _ => (false, false),
        };
        let keep = if which == 0 { is_struct } else if which == 1 { is_fn } else { !is_struct && !is_fn };
        proof {
            reveal(Seq::filter);
            assert(l.take(i + 1).drop_last() =~= l.take(i as int));
            assert(l.take(i + 1).last() == l[i as int]);
            assert(keep == pred(l[i as int]));
        }
        if keep {
            let c = copy_ast(&list[i]);
            proof {
                crate::deep::lemma_view_asts_push(r@, c);
            }
            r.push(c);
        }
        i = i + 1;
    }
    assert(l.take(i as int) =~= l);
    r
}

impl Ast {
    /// Evaluates the expression in the given context: the result is the
    /// expression's value or the error met, the variables change as the
    /// program assigns them, and printed values are appended to the output.
    pub fn evaluate(&self, ctx: &mut Context) -> (r: LangResult)
        ensures
            performs(*old(ctx), *final(ctx), eval(self@, old(ctx).env(), old(ctx).inc(), STEP_BUDGET as nat), r),
            old(ctx).wf() ==> final(ctx).wf(),
    {
        proof {
            if ctx.wf() {
                crate::ordering::law_evaluation_keeps_names_ascending(self@, ctx.env(), ctx.inc(), STEP_BUDGET as nat);
            }
        }
        eval_ast(self, ctx, STEP_BUDGET)
    }

    /// Moves the struct declarations and the function declarations of a top-level
    /// list of expressions to its front, so that functions are known before
    /// the rest of the program runs.
    pub fn hoist_functions_and_structs(&self) -> (r: Ast)
        requires
            self is ExpressionList,
        ensures
            r@ == AstV::ExpressionList(hoisted(self@->ExpressionList_0)),
    {
        match self {
            Ast::ExpressionList(expressions) => {
                let mut structs = select(expressions, 0);
                let mut functions = select(expressions, 1);
                let mut others = select(expressions, 2);
                let ghost (a, b, c) = (structs@, functions@, others@);
                structs.append(&mut functions);
                structs.append(&mut others);
                proof {
                    crate::deep::lemma_view_asts_concat(a, b);
                    crate::deep::lemma_view_asts_concat(a + b, c);
                }
                Ast::ExpressionList(structs)
            }
            _ => Ast::ExpressionList(Vec::new()),
        }
    }

    /// Whether the program declares a function named `main` at its top level.
    pub fn main_fn_exists(&self) -> (b: bool)
        ensures
            b == has_main(self@),
    {
        match self {
            Ast::ExpressionList(expressions) => {
                let ghost l = view_asts(expressions@);
                proof {
                    lemma_view_asts(expressions@);
                }
                let main_name = String::from_str("main");
                let mut i: usize = 0;
                while i < expressions.len()
                    invariant
                        i <= expressions.len(),
                        l == view_asts(expressions@),
                        self@ == AstV::ExpressionList(l),
                        l.len() == expressions.len(),
                        main_name@ == "main"@,
                        forall|j: int| 0 <= j < expressions.len() ==> #[trigger] l[j] == view_ast(expressions@[j]),
                        forall|j: int| 0 <= j < i ==> !declares_main(#[trigger] l[j]),
                    decreases expressions.len() - i,
                {
                    if let Ast::SExpr(s) = &expressions[i] {
                        let (k, x, _) = decompose(s);
                        if k == SKind::DeclareFunction {
                            if let Ast::ValueIdentifier(name) = x {
                                if *name == main_name {
                                    assert(declares_main(l[i as int]));
                                    return true;
                                }
                            } else {
                                proof {
                                    if let Ast::SExpr(s2) = x {
                                        lemma_view_sexpr_is_op(*s2);
                                    }
                                }
                            }
                        }
                    }
                    i = i + 1;
                }
                false
            }
            other => {
                proof {
                    if let Ast::SExpr(s2) = other {
                        lemma_view_sexpr_is_op(*s2);
                    }
                }
                false
            }
        }
    }

    /// Calls the program's `main` function, with no arguments.
    pub fn execute_main(&self, ctx: &mut Context) -> (r: LangResult)
        ensures
            performs(*old(ctx), *final(ctx), eval(main_call(), old(ctx).env(), old(ctx).inc(), STEP_BUDGET as nat), r),
            old(ctx).wf() ==> final(ctx).wf(),
    {
        let no_arguments: Vec<Ast> = Vec::new();
        assert(view_asts(no_arguments@) =~= Seq::<AstV>::empty());
        let name = String::from_str("main");
        let se = crate::ast::SExpression::ExecuteFn {
            identifier: Box::new(Ast::ValueIdentifier(name)),
            parameters: Box::new(Ast::ExpressionList(no_arguments)),
        };
        assert(crate::model::view_sexpr(se) == main_call());
        let call = Ast::SExpr(se);
        assert(call@ == main_call());
        call.evaluate(ctx)
    }
}

} // verus!
