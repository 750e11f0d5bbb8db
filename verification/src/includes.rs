use vstd::prelude::*;
use crate::ast::{Ast, Datatype};
use crate::model::{AstV, DatatypeV, SKind, view_ast, view_asts, view_dt, lemma_view_asts, lemma_view_sexpr_is_op};
use crate::deep::{decompose, copy_string};

verus! {

/// The file names that `include` expressions name by a string literal, in
/// the order they appear: in the program, in its conditionals and in the
/// bodies of the functions it declares.
pub open spec fn include_names(a: AstV) -> Seq<Seq<char>>
    decreases a,
{
    match a {
        AstV::Op(k, ops) => {
            match literal_name(k, ops) {
                Some(name) => seq![name],
                None => include_names_list(ops),
            }
        },
        AstV::ExpressionList(l) => include_names_list(l),
        AstV::Conditional(c, t, e) => include_names(*c) + include_names(*t) + match e {
            Some(x) => include_names(*x),
            None => Seq::empty(),
        },
        AstV::Literal(DatatypeV::Function(_, body, _)) => include_names(*body),
        _ => Seq::empty(),
    }
}

/// The file name of `include "name"`, if the operator is one.
pub open spec fn literal_name(k: SKind, ops: Seq<AstV>) -> Option<Seq<char>> {
    if k == SKind::Include && ops.len() == 1 {
        match ops[0] {
            AstV::Literal(DatatypeV::String(name)) => Some(name),
            _ => None,
        }
    } else {
        None
    }
}

/// The names of [`include_names`] for each expression of a list, in order.
pub open spec fn include_names_list(l: Seq<AstV>) -> Seq<Seq<char>>
    decreases l,
{
    if l.len() == 0 {
        Seq::empty()
    } else {
        include_names_list(l.drop_last()) + include_names(l.last())
    }
}

proof fn lemma_names_list_one(x: AstV)
    ensures
        include_names_list(seq![x]) == include_names(x),
{
    assert(seq![x].drop_last() =~= Seq::<AstV>::empty());
    assert(include_names_list(Seq::<AstV>::empty()) == Seq::<Seq<char>>::empty());
    assert(include_names_list(seq![x]) =~= include_names(x));
}

proof fn lemma_names_list_two(x: AstV, y: AstV)
    ensures
        include_names_list(seq![x, y]) == include_names(x) + include_names(y),
{
    assert(seq![x, y].drop_last() =~= seq![x]);
    lemma_names_list_one(x);
}

/// The model of a list of names.
pub open spec fn view_names(s: Seq<String>) -> Seq<Seq<char>> {
    Seq::new(s.len(), |i: int| s[i]@)
}

proof fn lemma_view_names_push(s: Seq<String>, n: String)
    ensures
        view_names(s.push(n)) == view_names(s).push(n@),
{
    assert(view_names(s.push(n)) =~= view_names(s).push(n@));
}

fn collect_includes(a: &Ast, out: &mut Vec<String>)
    ensures
        view_names(final(out)@) == view_names(old(out)@) + include_names(a@),
    decreases a,
{
    let ghost before = view_names(out@);
    match a {
        Ast::SExpr(s) => {
            let (k, x, y) = decompose(s);
            if k == SKind::Include {
                if let Ast::Literal(Datatype::String(name)) = x {
                    let ghost o0 = out@;
                    out.push(copy_string(name));
                    proof {
                        let d = Datatype::String(*name);
                        assert(view_dt(d) == DatatypeV::String(name@));
                        assert(*x == Ast::Literal(d));
                        assert(view_ast(*x) == AstV::Literal(DatatypeV::String(name@)));
                        assert(literal_name(k, seq![view_ast(*x)]) == Some(name@));
                        lemma_view_names_push(o0, out@.last());
                        assert(view_names(out@) =~= before + include_names(a@));
                    }
                    return;
                }
                proof {
                    match x {
                        Ast::SExpr(s2) => lemma_view_sexpr_is_op(*s2),
                        Ast::Literal(d) => assert(view_ast(*x) == AstV::Literal(view_dt(*d))),
                        _ => {},
                    }
                    assert(literal_name(k, seq![view_ast(*x)]) is None);
                }
            }
            collect_includes(x, out);
            let ghost mid = view_names(out@);
            match y {
                Some(z) => {
                    collect_includes(z, out);
                    proof {
                        lemma_names_list_two(view_ast(*x), view_ast(*z));
                        assert(view_names(out@) =~= before + include_names(a@));
                    }
                },
                None => {
                    proof {
                        lemma_names_list_one(view_ast(*x));
                        assert(view_names(out@) =~= before + include_names(a@));
                    }
                },
            }
        },
        Ast::ExpressionList(v) => {
            let ghost l = view_asts(v@);
            proof {
                lemma_view_asts(v@);
                assert(l.take(0) =~= Seq::<AstV>::empty());
                assert(view_names(out@) =~= before + include_names_list(l.take(0)));
            }
            let mut i: usize = 0;
            while i < v.len()
                invariant
                    i <= v.len(),
                    l == view_asts(v@),
                    l.len() == v.len(),
                    forall|j: int| 0 <= j < v.len() ==> #[trigger] l[j] == view_ast(v@[j]),
                    view_names(out@) == before + include_names_list(l.take(i as int)),
                    *a is ExpressionList,
                    (*a)->ExpressionList_0 == *v,
                decreases v.len() - i,
            {
                proof {
                    assert(decreases_to!(*a => (*a)->ExpressionList_0));
                    assert(decreases_to!(*v => v@));
                    assert(decreases_to!(v@ => v@[i as int]));
                }
                let ghost o0 = view_names(out@);
                collect_includes(&v[i], out);
                proof {
                    let t = l.take(i + 1);
                    assert(t.drop_last() =~= l.take(i as int));
                    assert(t.last() == l[i as int]);
                    assert(include_names_list(t) == include_names_list(l.take(i as int)) + include_names(l[i as int]));
                    assert(view_names(out@) =~= before + include_names_list(t));
                }
                i = i + 1;
            }
            proof {
                assert(l.take(i as int) =~= l);
            }
        },
        Ast::Conditional { condition, true_expr, false_expr } => {
            collect_includes(condition, out);
            collect_includes(true_expr, out);
            match false_expr {
                Some(e) => {
                    collect_includes(e, out);
                },
                None => {},
            }
            proof {
                assert(view_names(out@) =~= before + include_names(a@));
            }
        },
        Ast::Literal(d) => {
            match d {
                Datatype::Function { parameters: _, body, return_type: _ } => {
                    proof {
                        assert(decreases_to!(*a => *d));
                        assert(decreases_to!(*d => *body));
                    }
                    collect_includes(body, out);
                },
                _ => {
                    proof {
                        assert(a@ == AstV::Literal(view_dt(*d)));
                        assert(!(view_dt(*d) is Function));
                        assert(view_names(out@) =~= before + include_names(a@));
                    }
                },
            }
        },
        _ => {
            proof {
                assert(view_names(out@) =~= before + include_names(a@));
            }
        },
    }
}

/// The file names that the program's `include` expressions give as string
/// literals, in order; these are the files to read before it runs.
pub fn included_files(ast: &Ast) -> (r: Vec<String>)
    ensures
        view_names(r@) == include_names(ast@),
{
    let mut out: Vec<String> = Vec::new();
    proof {
        assert(view_names(out@) =~= Seq::<Seq<char>>::empty());
    }
    collect_includes(ast, &mut out);
    proof {
        assert(Seq::<Seq<char>>::empty() + include_names(ast@) =~= include_names(ast@));
    }
    out
}

} // verus!
