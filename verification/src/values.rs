use vstd::prelude::*;
use vstd::string::StringExecFns;
use std::rc::Rc;
use crate::ast::{Datatype, TypeInfo, LangError, LangResult};
use crate::model::{DatatypeV, TypeV, view_dt, view_dt_fields, view_ty, view_ty_fields, lemma_view_dts, lemma_view_dt_fields};
use crate::errors::{LangErrorV, view_lang_result};
use crate::text::{seq_lt, int_to_decimal, i32_to_string, chars_of, order_chars, KeyOrder};
use crate::arith::{wrap_i32, trunc_div, trunc_rem, div_i32, rem_i32};
use crate::fields::{field_get, field_put, raw_get, raw_put, get_field};
use crate::equality::{datatype_eq, type_eq, shared_eq};

verus! {

/// The outcome of ordering two values, when they can be ordered at all.
#[derive(Debug, Clone, Copy, PartialEq, Eq, Structural)]
pub enum Comparison {
    Less,
    Equal,
    Greater,
}

/// `a + b` on values: numbers add (wrapping around on overflow), strings
/// concatenate, and a number next to a string is written out in decimal.
pub open spec fn value_add(a: DatatypeV, b: DatatypeV) -> Result<DatatypeV, LangErrorV> {
    match (a, b) {
        (DatatypeV::Number(x), DatatypeV::Number(y)) => Ok(DatatypeV::Number(wrap_i32(x + y) as i32)),
        (DatatypeV::Number(x), DatatypeV::String(s)) => Ok(DatatypeV::String(int_to_decimal(x as int) + s)),
        (DatatypeV::String(s), DatatypeV::Number(y)) => Ok(DatatypeV::String(s + int_to_decimal(y as int))),
        (DatatypeV::String(s), DatatypeV::String(t)) => Ok(DatatypeV::String(s + t)),
        _ => Err(LangErrorV::UnsupportedArithimaticOperation),
    }
}

/// `a - b` on values: numbers only, wrapping around on overflow.
pub open spec fn value_sub(a: DatatypeV, b: DatatypeV) -> Result<DatatypeV, LangErrorV> {
    match (a, b) {
        (DatatypeV::Number(x), DatatypeV::Number(y)) => Ok(DatatypeV::Number(wrap_i32(x - y) as i32)),
        _ => Err(LangErrorV::UnsupportedArithimaticOperation),
    }
}

/// `a * b` on values: numbers only, wrapping around on overflow.
pub open spec fn value_mul(a: DatatypeV, b: DatatypeV) -> Result<DatatypeV, LangErrorV> {
    match (a, b) {
        (DatatypeV::Number(x), DatatypeV::Number(y)) => Ok(DatatypeV::Number(wrap_i32(x * y) as i32)),
        _ => Err(LangErrorV::UnsupportedArithimaticOperation),
    }
}

/// `a / b` on values: numbers only, rounding toward zero; dividing by zero is an error.
pub open spec fn value_div(a: DatatypeV, b: DatatypeV) -> Result<DatatypeV, LangErrorV> {
    match (a, b) {
        (DatatypeV::Number(x), DatatypeV::Number(y)) => if y == 0 {
            Err(LangErrorV::DivideByZero)
        } else {
            Ok(DatatypeV::Number(wrap_i32(trunc_div(x as int, y as int)) as i32))
        },
        _ => Err(LangErrorV::UnsupportedArithimaticOperation),
    }
}

/// `a % b` on values: numbers only, with the sign of `a`; zero as divisor is an error.
pub open spec fn value_rem(a: DatatypeV, b: DatatypeV) -> Result<DatatypeV, LangErrorV> {
    match (a, b) {
        (DatatypeV::Number(x), DatatypeV::Number(y)) => if y == 0 {
            Err(LangErrorV::DivideByZero)
        } else {
            Ok(DatatypeV::Number(trunc_rem(x as int, y as int) as i32))
        },
        _ => Err(LangErrorV::UnsupportedArithimaticOperation),
    }
}

/// Orders integers.
pub open spec fn order_ints(x: int, y: int) -> Comparison {
    if x < y {
        Comparison::Less
    } else if x > y {
        Comparison::Greater
    } else {
        Comparison::Equal
    }
}

/// Whether every field of the left struct is present, with the same value, in the right one.
pub open spec fn fields_included(m1: Seq<(Seq<char>, DatatypeV)>, m2: Seq<(Seq<char>, DatatypeV)>) -> bool {
    forall|i: int| 0 <= i < m1.len() ==> field_get(m2, #[trigger] m1[i].0) == Some(m1[i].1)
}

/// How two values order: numbers by value, strings lexicographically, `false`
/// before `true`; arrays of one type and length are equal when their elements
/// are, and otherwise the left one comes first; a struct is equal to another
/// struct that holds all of its fields, and comes first otherwise (also before
/// a value that is no struct). Other pairs do not order.
pub open spec fn value_compare(a: DatatypeV, b: DatatypeV) -> Option<Comparison> {
    match a {
        DatatypeV::Number(x) => match b {
            DatatypeV::Number(y) => Some(order_ints(x as int, y as int)),
            _ => None,
        },
        DatatypeV::String(s) => match b {
            DatatypeV::String(t) => Some(
                if seq_lt(s, t) {
                    Comparison::Less
                } else if seq_lt(t, s) {
                    Comparison::Greater
                } else {
                    Comparison::Equal
                },
            ),
            _ => None,
        },
        DatatypeV::Bool(x) => match b {
            DatatypeV::Bool(y) => Some(
                if !x && y {
                    Comparison::Less
                } else if x && !y {
                    Comparison::Greater
                } else {
                    Comparison::Equal
                },
            ),
            _ => None,
        },
        DatatypeV::Array(v1, t1) => match b {
            DatatypeV::Array(v2, t2) => Some(
                if t1 == t2 && v1.len() == v2.len() && v1 == v2 {
                    Comparison::Equal
                } else {
                    Comparison::Less
                },
            ),
            _ => None,
        },
        DatatypeV::Struct(m1) => match b {
            DatatypeV::Struct(m2) => Some(
                if fields_included(m1, m2) {
                    Comparison::Equal
                } else {
                    Comparison::Less
                },
            ),
            _ => Some(Comparison::Less),
        },
        _ => None,
    }
}

proof fn lemma_wrapping_add(x: i32, y: i32)
    ensures
        vstd::wrapping::i32_specs::wrapping_add(x, y) == wrap_i32(x + y),
{
    let z = x + y;
    if z > i32::MAX {
        assert((z - 0x1_0000_0000) % 0x1_0000_0000 == z % 0x1_0000_0000);
    } else if z < i32::MIN {
        assert((z + 0x1_0000_0000) % 0x1_0000_0000 == z % 0x1_0000_0000);
    }
}

proof fn lemma_wrapping_sub(x: i32, y: i32)
    ensures
        vstd::wrapping::i32_specs::wrapping_sub(x, y) == wrap_i32(x - y),
{
    let z = x - y;
    if z > i32::MAX {
        assert((z - 0x1_0000_0000) % 0x1_0000_0000 == z % 0x1_0000_0000);
    } else if z < i32::MIN {
        assert((z + 0x1_0000_0000) % 0x1_0000_0000 == z % 0x1_0000_0000);
    }
}

proof fn lemma_wrapping_mul(x: i32, y: i32)
    ensures
        vstd::wrapping::i32_specs::wrapping_mul(x, y) == wrap_i32(x * y),
{
}

pub proof fn lemma_raw_get_dt(s: Seq<(String, Datatype)>, k: Seq<char>)
    ensures
        match raw_get(s, k) {
            Some(v) => field_get(view_dt_fields(s), k) == Some(view_dt(v)),
            None => field_get(view_dt_fields(s), k) is None,
        },
    decreases s.len(),
{
    if s.len() > 0 {
        lemma_raw_get_dt(s.drop_first(), k);
        assert(view_dt_fields(s)[0] == (s[0].0@, view_dt(s[0].1)));
        assert(view_dt_fields(s).drop_first() == view_dt_fields(s.drop_first()));
    }
}

pub proof fn lemma_raw_put_dt(s: Seq<(String, Datatype)>, k: String, v: Datatype)
    ensures
        view_dt_fields(raw_put(s, k, v)) == field_put(view_dt_fields(s), k@, view_dt(v)),
    decreases s.len(),
{
    let r = raw_put(s, k, v);
    if s.len() == 0 {
        assert(r.drop_first().len() == 0);
        assert(view_dt_fields(r.drop_first()).len() == 0);
        assert(r[0] == (k, v));
        assert(view_dt_fields(r) =~= seq![(k@, view_dt(v))]);
    } else {
        let vs = view_dt_fields(s);
        assert(vs[0] == (s[0].0@, view_dt(s[0].1)));
        assert(vs.drop_first() == view_dt_fields(s.drop_first()));
        if s[0].0@ == k@ {
            assert(r.drop_first() =~= s.drop_first());
            assert(view_dt_fields(r) =~= seq![(k@, view_dt(v))] + vs.drop_first());
        } else if seq_lt(k@, s[0].0@) {
            assert(r.drop_first() =~= s);
            assert(view_dt_fields(r) =~= seq![(k@, view_dt(v))] + vs);
        } else {
            lemma_raw_put_dt(s.drop_first(), k, v);
            assert(r.drop_first() =~= raw_put(s.drop_first(), k, v));
            assert(view_dt_fields(r) =~= seq![vs[0]] + field_put(vs.drop_first(), k@, view_dt(v)));
        }
    }
}

pub proof fn lemma_raw_put_ty(s: Seq<(String, TypeInfo)>, k: String, v: TypeInfo)
    ensures
        view_ty_fields(raw_put(s, k, v)) == field_put(view_ty_fields(s), k@, view_ty(v)),
    decreases s.len(),
{
    let r = raw_put(s, k, v);
    if s.len() == 0 {
        assert(r.drop_first().len() == 0);
        assert(view_ty_fields(r.drop_first()).len() == 0);
        assert(r[0] == (k, v));
        assert(view_ty_fields(r) =~= seq![(k@, view_ty(v))]);
    } else {
        let vs = view_ty_fields(s);
        assert(vs[0] == (s[0].0@, view_ty(s[0].1)));
        assert(vs.drop_first() == view_ty_fields(s.drop_first()));
        if s[0].0@ == k@ {
            assert(r.drop_first() =~= s.drop_first());
            assert(view_ty_fields(r) =~= seq![(k@, view_ty(v))] + vs.drop_first());
        } else if seq_lt(k@, s[0].0@) {
            assert(r.drop_first() =~= s);
            assert(view_ty_fields(r) =~= seq![(k@, view_ty(v))] + vs);
        } else {
            lemma_raw_put_ty(s.drop_first(), k, v);
            assert(r.drop_first() =~= raw_put(s.drop_first(), k, v));
            assert(view_ty_fields(r) =~= seq![vs[0]] + field_put(vs.drop_first(), k@, view_ty(v)));
        }
    }
}

/// The text that `print` shows for a number, a string, a boolean or
/// nothing; the other values are shown by their structure.
pub open spec fn display_text(d: DatatypeV) -> Option<Seq<char>> {
    match d {
        DatatypeV::Number(n) => Some(int_to_decimal(n as int)),
        DatatypeV::String(s) => Some(s),
        DatatypeV::Bool(b) => Some(if b { "true"@ } else { "false"@ }),
        DatatypeV::Nothing => Some("NONE"@),
        _ => None,
    }
}

impl Datatype {
    /// The text shown for a number, a string, a boolean or nothing; `None`
    /// for an array, a function, a struct or a struct type.
    pub fn display_text(&self) -> (r: Option<String>)
        ensures
            match (r, display_text(self@)) {
                (Some(t), Some(u)) => t@ == u,
                (None, None) => true,
                _ => false,
            },
    {
        match self {
            Datatype::Number(n) => Some(i32_to_string(*n)),
            Datatype::String(s) => Some(s.clone()),
            Datatype::Bool(b) => {
                proof {
                    reveal_strlit("true");
                    reveal_strlit("false");
                }
                if *b {
                    Some(String::from_str("true"))
                } else {
                    Some(String::from_str("false"))
                }
            }
            Datatype::Nothing => {
                proof {
                    reveal_strlit("NONE");
                }
                Some(String::from_str("NONE"))
            }
            _ => None,
        }
    }

    /// The sum of two values.
    pub fn add_values(self, other: Datatype) -> (r: LangResult)
        ensures
            view_lang_result(r) == value_add(self@, other@),
    {
        match (self, other) {
            (Datatype::Number(x), Datatype::Number(y)) => {
                let z = x.wrapping_add(y);
                proof {
                    lemma_wrapping_add(x, y);
                }
                Ok(Rc::new(Datatype::Number(z)))
            }
            (Datatype::Number(x), Datatype::String(s)) => {
                let text = i32_to_string(x);
                Ok(Rc::new(Datatype::String(text.concat(s.as_str()))))
            }
            (Datatype::String(s), Datatype::Number(y)) => {
                let text = i32_to_string(y);
                Ok(Rc::new(Datatype::String(s.concat(text.as_str()))))
            }
            (Datatype::String(s), Datatype::String(t)) => Ok(Rc::new(Datatype::String(s.concat(t.as_str())))),
            _ => Err(LangError::UnsupportedArithimaticOperation),
        }
    }

    /// The difference of two values.
    pub fn sub_values(self, other: Datatype) -> (r: LangResult)
        ensures
            view_lang_result(r) == value_sub(self@, other@),
    {
        match (self, other) {
            (Datatype::Number(x), Datatype::Number(y)) => {
                let z = x.wrapping_sub(y);
                proof {
                    lemma_wrapping_sub(x, y);
                }
                Ok(Rc::new(Datatype::Number(z)))
            }
            _ => Err(LangError::UnsupportedArithimaticOperation),
        }
    }

    /// The product of two values.
    pub fn mul_values(self, other: Datatype) -> (r: LangResult)
        ensures
            view_lang_result(r) == value_mul(self@, other@),
    {
        match (self, other) {
            (Datatype::Number(x), Datatype::Number(y)) => {
                let z = x.wrapping_mul(y);
                proof {
                    lemma_wrapping_mul(x, y);
                }
                Ok(Rc::new(Datatype::Number(z)))
            }
            _ => Err(LangError::UnsupportedArithimaticOperation),
        }
    }

    /// The quotient of two values.
    pub fn div_values(self, other: Datatype) -> (r: LangResult)
        ensures
            view_lang_result(r) == value_div(self@, other@),
    {
        match (self, other) {
            (Datatype::Number(x), Datatype::Number(y)) => {
                if y == 0 {
                    Err(LangError::DivideByZero)
                } else {
                    Ok(Rc::new(Datatype::Number(div_i32(x, y))))
                }
            }
            _ => Err(LangError::UnsupportedArithimaticOperation),
        }
    }

    /// The remainder of two values.
    pub fn rem_values(self, other: Datatype) -> (r: LangResult)
        ensures
            view_lang_result(r) == value_rem(self@, other@),
    {
        match (self, other) {
            (Datatype::Number(x), Datatype::Number(y)) => {
                if y == 0 {
                    Err(LangError::DivideByZero)
                } else {
                    Ok(Rc::new(Datatype::Number(rem_i32(x, y))))
                }
            }
            _ => Err(LangError::UnsupportedArithimaticOperation),
        }
    }

    /// How two values order, if they do.
    pub fn compare_values(&self, other: &Datatype) -> (r: Option<Comparison>)
        ensures
            r == value_compare(self@, other@),
    {
        match self {
            Datatype::Number(x) => match other {
                Datatype::Number(y) => Some(
                    if *x < *y {
                        Comparison::Less
                    } else if *x > *y {
                        Comparison::Greater
                    } else {
                        Comparison::Equal
                    },
                ),
                _ => None,
            },
            Datatype::String(s) => match other {
                Datatype::String(t) => {
                    let sc = chars_of(s.as_str());
                    let tc = chars_of(t.as_str());
                    match order_chars(&sc, &tc) {
                        KeyOrder::Before => Some(Comparison::Less),
                        KeyOrder::After => Some(Comparison::Greater),
                        KeyOrder::Same => Some(Comparison::Equal),
                    }
                }
                _ => None,
            },
            Datatype::Bool(x) => match other {
                Datatype::Bool(y) => Some(
                    if !*x && *y {
                        Comparison::Less
                    } else if *x && !*y {
                        Comparison::Greater
                    } else {
                        Comparison::Equal
                    },
                ),
                _ => None,
            },
            Datatype::Array { value: v1, type_: t1 } => match other {
                Datatype::Array { value: v2, type_: t2 } => {
                    proof {
                        lemma_view_dts(v1@);
                        lemma_view_dts(v2@);
                    }
                    if type_eq(t1, t2) && v1.len() == v2.len() && shared_eq(v1, v2) {
                        Some(Comparison::Equal)
                    } else {
                        Some(Comparison::Less)
                    }
                }
                _ => None,
            },
            Datatype::Struct { map: m1 } => match other {
                Datatype::Struct { map: m2 } => {
                    if struct_fields_included(m1, m2) {
                        Some(Comparison::Equal)
                    } else {
                        Some(Comparison::Less)
                    }
                }
                _ => Some(Comparison::Less),
            },
            _ => None,
        }
    }
}

/// Whether every field of `m1` is present in `m2` with the same value.
fn struct_fields_included(m1: &Vec<(String, Datatype)>, m2: &Vec<(String, Datatype)>) -> (r: bool)
    ensures
        r == fields_included(view_dt_fields(m1@), view_dt_fields(m2@)),
{
    proof {
        lemma_view_dt_fields(m1@);
    }
    let ghost v1 = view_dt_fields(m1@);
    let ghost v2 = view_dt_fields(m2@);
    let mut i: usize = 0;
    while i < m1.len()
        invariant
            i <= m1.len(),
            v1 == view_dt_fields(m1@),
            v2 == view_dt_fields(m2@),
            v1.len() == m1@.len(),
            forall|j: int| 0 <= j < m1@.len() ==> #[trigger] v1[j] == (m1@[j].0@, view_dt(m1@[j].1)),
            forall|j: int| 0 <= j < i ==> field_get(v2, #[trigger] v1[j].0) == Some(v1[j].1),
        decreases m1.len() - i,
    {
        let found = get_field(m2, &m1[i].0);
        proof {
            lemma_raw_get_dt(m2@, m1@[i as int].0@);
        }
        match found {
            Some(x) => {
                if !datatype_eq(x, &m1[i].1) {
                    assert(field_get(v2, v1[i as int].0) != Some(v1[i as int].1));
                    return false;
                }
            }
            None => {
                assert(field_get(v2, v1[i as int].0) != Some(v1[i as int].1));
                return false;
            }
        }
        i = i + 1;
    }
    true
}

/// How two types order, if they do: a type matches itself, an array type
/// orders as its element types, struct types with the same fields match,
/// named struct types order by name, and `Any` matches every type on its
/// right. Function types do not order.
pub open spec fn type_compare(a: TypeV, b: TypeV) -> Option<Comparison>
    decreases a,
{
    match (a, b) {
        (TypeV::Number, TypeV::Number) => Some(Comparison::Equal),
        (TypeV::Float, TypeV::Float) => Some(Comparison::Equal),
        (TypeV::String, TypeV::String) => Some(Comparison::Equal),
        (TypeV::Bool, TypeV::Bool) => Some(Comparison::Equal),
        (TypeV::Nothing, TypeV::Nothing) => Some(Comparison::Equal),
        (TypeV::Array(x), TypeV::Array(y)) => type_compare(*x, *y),
        (TypeV::Struct(m1), TypeV::Struct(m2)) => if m1 == m2 { Some(Comparison::Equal) } else { None },
        (TypeV::StructType(x), TypeV::StructType(y)) => Some(
            if seq_lt(x, y) {
                Comparison::Less
            } else if x == y {
                Comparison::Equal
            } else {
                Comparison::Greater
            },
        ),
        (TypeV::Any, _) => Some(Comparison::Equal),
        _ => None,
    }
}

impl TypeInfo {
    /// How two types order, if they do.
    pub fn compare_types(&self, rhs: &TypeInfo) -> (r: Option<Comparison>)
        ensures
            r == type_compare(self@, rhs@),
        decreases self,
    {
        match (self, rhs) {
            (TypeInfo::Number, TypeInfo::Number) => Some(Comparison::Equal),
            (TypeInfo::Float, TypeInfo::Float) => Some(Comparison::Equal),
            (TypeInfo::String, TypeInfo::String) => Some(Comparison::Equal),
            (TypeInfo::Bool, TypeInfo::Bool) => Some(Comparison::Equal),
            (TypeInfo::Nothing, TypeInfo::Nothing) => Some(Comparison::Equal),
            (TypeInfo::Array(x), TypeInfo::Array(y)) => x.compare_types(y),
            (TypeInfo::Struct { map: m1 }, TypeInfo::Struct { map: m2 }) => {
                if crate::equality::ty_fields_eq(m1, m2) {
                    Some(Comparison::Equal)
                } else {
                    None
                }
            }
            (TypeInfo::StructType { identifier: x }, TypeInfo::StructType { identifier: y }) => {
                let xc = chars_of(x.as_str());
                let yc = chars_of(y.as_str());
                match order_chars(&xc, &yc) {
                    KeyOrder::Before => Some(Comparison::Less),
                    KeyOrder::Same => Some(Comparison::Equal),
                    KeyOrder::After => {
                        proof {
                            crate::text::lemma_seq_lt_asymmetric(x@, y@);
                        }
                        Some(Comparison::Greater)
                    }
                }
            }
            (TypeInfo::Any, _) => Some(Comparison::Equal),
            _ => None,
        }
    }
}

} // verus!
