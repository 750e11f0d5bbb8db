use vstd::prelude::*;
use crate::ast::Ast;
use crate::model::{AstV, SKind, view_ast, view_asts, lemma_view_asts, lemma_view_sexpr_is_op};
use crate::fields::{field_get, field_put, raw_get, raw_put, get_field, put_field};
use crate::deep::{decompose, copy_string};
use crate::text::seq_lt;

verus! {

/// Whether a name may be bound again.
#[derive(Debug, Clone, Copy, PartialEq, Eq, Structural)]
pub enum Mutability {
    Mutable,
    Immutable,
}

/// Why a program breaks the rules on what may be bound again.
#[derive(Debug, Clone, Copy, PartialEq, Eq, Structural)]
pub enum MutabilityError {
    CanNotAssignToConstVariable,
    CanNotRedeclareConst,
    VariableDoesNotExist,
    IsNotAVariable,
    CanNotRedeclareFunction,
    CanNotRedeclareStruct,
}

/// The names bound so far with their mutability, names ascending.
pub type MutabilityMap = Vec<(String, Mutability)>;

/// The model of a `MutabilityMap`.
pub type MutMapV = Seq<(Seq<char>, Mutability)>;

pub open spec fn view_mut_map(s: Seq<(String, Mutability)>) -> MutMapV {
    Seq::new(s.len(), |i: int| (s[i].0@, s[i].1))
}

/// A name that a declaration binds for good: taken if it is bound already,
/// else bound as immutable.
pub open spec fn bind_once(id: Seq<char>, m: MutMapV, taken: MutabilityError) -> (Result<(), MutabilityError>, MutMapV) {
    match field_get(m, id) {
        Some(_) => (Err(taken), m),
        None => (Ok(()), field_put(m, id, Mutability::Immutable)),
    }
}

/// Checks one expression against the rules: `:=` needs an existing mutable
/// name; `const`, `fn` and `struct` need a fresh name; `let` may repeat a
/// mutable name but not a constant, and binds a fresh name as mutable. A
/// list of expressions is checked in its own copy of the map.
pub open spec fn mutability_check(a: AstV, m: MutMapV) -> (Result<(), MutabilityError>, MutMapV)
    decreases a,
{
    match a {
        AstV::ExpressionList(l) => (check_scope(l, m), m),
        AstV::Op(k, args) => if args.len() == 0 {
            (Ok(()), m)
        } else {
            match k {
                SKind::Assignment | SKind::ConstDeclaration | SKind::VariableDeclaration | SKind::DeclareFunction
                | SKind::StructDeclaration => match args[0] {
                    AstV::ValueIdentifier(id) => match k {
                        SKind::Assignment => (
                            match field_get(m, id) {
                                Some(Mutability::Mutable) => Ok(()),
                                Some(Mutability::Immutable) => Err(MutabilityError::CanNotAssignToConstVariable),
                                None => Err(MutabilityError::VariableDoesNotExist),
                            },
                            m,
                        ),
                        SKind::ConstDeclaration => bind_once(id, m, MutabilityError::CanNotRedeclareConst),
                        SKind::VariableDeclaration => match field_get(m, id) {
                            Some(Mutability::Mutable) => (Ok(()), m),
                            Some(Mutability::Immutable) => (Err(MutabilityError::CanNotRedeclareConst), m),
                            None => (Ok(()), field_put(m, id, Mutability::Mutable)),
                        },
                        SKind::DeclareFunction => bind_once(id, m, MutabilityError::CanNotRedeclareFunction),
                        _ => bind_once(id, m, MutabilityError::CanNotRedeclareStruct),
                    },
                    _ => (Err(MutabilityError::IsNotAVariable), m),
                },
                _ => (Ok(()), m),
            }
        },
        _ => (Ok(()), m),
    }
}

/// Checks the expressions of a list in turn, in one map; the first error stops it.
pub open spec fn check_scope(l: Seq<AstV>, m: MutMapV) -> Result<(), MutabilityError>
    decreases l,
{
    if l.len() == 0 {
        Ok(())
    } else {
        let (r, m1) = mutability_check(l[0], m);
        match r {
            Err(e) => Err(e),
            Ok(_) => check_scope(l.drop_first(), m1),
        }
    }
}

proof fn lemma_mut_get(s: Seq<(String, Mutability)>, k: Seq<char>)
    ensures
        match raw_get(s, k) {
            Some(v) => field_get(view_mut_map(s), k) == Some(v),
            None => field_get(view_mut_map(s), k) is None,
        },
    decreases s.len(),
{
    if s.len() > 0 {
        lemma_mut_get(s.drop_first(), k);
        assert(view_mut_map(s).drop_first() =~= view_mut_map(s.drop_first()));
    }
}

proof fn lemma_mut_put(s: Seq<(String, Mutability)>, k: String, v: Mutability)
    ensures
        view_mut_map(raw_put(s, k, v)) == field_put(view_mut_map(s), k@, v),
    decreases s.len(),
{
    let r = raw_put(s, k, v);
    let vs = view_mut_map(s);
    if s.len() == 0 {
        assert(view_mut_map(r) =~= seq![(k@, v)]);
    } else {
        assert(vs.drop_first() =~= view_mut_map(s.drop_first()));
        if s[0].0@ == k@ {
            assert(view_mut_map(r) =~= seq![(k@, v)] + vs.drop_first());
        } else if seq_lt(k@, s[0].0@) {
            assert(view_mut_map(r) =~= seq![(k@, v)] + vs);
        } else {
            lemma_mut_put(s.drop_first(), k, v);
            assert(view_mut_map(r) =~= seq![vs[0]] + field_put(vs.drop_first(), k@, v));
        }
    }
}

/// A copy of a mutability map.
fn copy_mut_map(s: &MutabilityMap) -> (r: MutabilityMap)
    ensures
        view_mut_map(r@) == view_mut_map(s@),
{
    let mut r: MutabilityMap = Vec::new();
    let mut i: usize = 0;
    while i < s.len()
        invariant
            i <= s.len(),
            r@.len() == i,
            view_mut_map(r@) =~= view_mut_map(s@).subrange(0, i as int),
        decreases s.len() - i,
    {
        let name = copy_string(&s[i].0);
        let ghost before = r@;
        r.push((name, s[i].1));
        proof {
            assert forall|j: int| 0 <= j < r@.len() implies #[trigger] view_mut_map(r@)[j] == view_mut_map(s@).subrange(0, i + 1)[j] by {
                if j < i {
                    assert(r@[j] == before[j]);
                    assert(view_mut_map(before)[j] == view_mut_map(s@).subrange(0, i as int)[j]);
                }
            }
        }
        i = i + 1;
        assert(view_mut_map(r@) =~= view_mut_map(s@).subrange(0, i as int));
    }
    assert(view_mut_map(s@).subrange(0, i as int) =~= view_mut_map(s@));
    r
}

/// Binds a name as immutable, unless it is bound already.
fn bind_once_x(id: &String, map: &mut MutabilityMap, taken: MutabilityError) -> (r: Result<(), MutabilityError>)
    ensures
        (r, view_mut_map(final(map)@)) == bind_once(id@, view_mut_map(old(map)@), taken),
{
    proof {
        lemma_mut_get(map@, id@);
    }
    match get_field(map, id) {
        Some(_) => Err(taken),
        None => {
            let name = copy_string(id);
            let ghost s0 = map@;
            let ghost gn = name;
            put_field(map, name, Mutability::Immutable);
            proof {
                lemma_mut_put(s0, gn, Mutability::Immutable);
            }
            Ok(())
        }
    }
}

impl Ast {
    /// Checks the program against the rules on what may be bound again,
    /// recording the names it binds in `map`.
    pub fn check_mutability_semantics(&self, map: &mut MutabilityMap) -> (r: Result<(), MutabilityError>)
        ensures
            (r, view_mut_map(final(map)@)) == mutability_check(self@, view_mut_map(old(map)@)),
        decreases self,
    {
        match self {
            Ast::ExpressionList(expressions) => {
                let ghost l = view_asts(expressions@);
                let ghost m0 = view_mut_map(map@);
                proof {
                    lemma_view_asts(expressions@);
                    assert(l.skip(0) =~= l);
                }
                let mut scope = copy_mut_map(map);
                let mut i: usize = 0;
                while i < expressions.len()
                    invariant
                        i <= expressions.len(),
                        l == view_asts(expressions@),
                        l.len() == expressions.len(),
                        forall|j: int| 0 <= j < expressions.len() ==> #[trigger] l[j] == view_ast(expressions@[j]),
                        m0 == view_mut_map(map@),
                        map@ == old(map)@,
                        *self is ExpressionList,
                        (*self)->ExpressionList_0 == *expressions,
                        check_scope(l, m0) == check_scope(l.skip(i as int), view_mut_map(scope@)),
                    decreases expressions.len() - i,
                {
                    proof {
                        assert(l.skip(i as int)[0] == l[i as int]);
                        assert(l.skip(i as int).drop_first() =~= l.skip(i + 1));
                        assert(decreases_to!(*self => (*self)->ExpressionList_0));
                        assert(decreases_to!(*expressions => expressions@));
                        assert(decreases_to!(expressions@ => expressions@[i as int]));
                    }
                    let r = expressions[i].check_mutability_semantics(&mut scope);
                    if let Err(e) = r {
                        return Err(e);
                    }
                    i = i + 1;
                }
                proof {
                    assert(l.skip(i as int).len() == 0);
                }
                Ok(())
            }
            Ast::SExpr(s) => {
                let (k, x, _) = decompose(s);
                match k {
                    SKind::Assignment | SKind::ConstDeclaration | SKind::VariableDeclaration
                    | SKind::DeclareFunction | SKind::StructDeclaration => match x {
                        Ast::ValueIdentifier(id) => {
                            proof {
                                lemma_mut_get(map@, id@);
                            }
                            match k {
                                SKind::Assignment => match get_field(map, id) {
                                    Some(Mutability::Mutable) => Ok(()),
                                    Some(Mutability::Immutable) => Err(MutabilityError::CanNotAssignToConstVariable),
                                    None => Err(MutabilityError::VariableDoesNotExist),
                                },
                                SKind::ConstDeclaration => bind_once_x(id, map, MutabilityError::CanNotRedeclareConst),
                                SKind::VariableDeclaration => match get_field(map, id) {
                                    Some(Mutability::Mutable) => Ok(()),
                                    Some(Mutability::Immutable) => Err(MutabilityError::CanNotRedeclareConst),
                                    None => {
                                        let name = copy_string(id);
                                        let ghost s0 = map@;
                                        let ghost gn = name;
                                        put_field(map, name, Mutability::Mutable);
                                        proof {
                                            lemma_mut_put(s0, gn, Mutability::Mutable);
                                        }
                                        Ok(())
                                    },
                                },
                                SKind::DeclareFunction => bind_once_x(id, map, MutabilityError::CanNotRedeclareFunction),
                                _ => bind_once_x(id, map, MutabilityError::CanNotRedeclareStruct),
                            }
                        }
                        other => {
                            proof {
                                if let Ast::SExpr(s2) = other {
                                    lemma_view_sexpr_is_op(*s2);
                                }
                            }
                            Err(MutabilityError::IsNotAVariable)
                        }
                    },
                    _ => Ok(()),
                }
            }
            _ => Ok(()),
        }
    }
}

} // verus!
