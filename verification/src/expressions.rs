use vstd::prelude::*;
use crate::ast::{Ast, SExpression};
use crate::model::{AstV, SKind, is_unary, view_ast};
use crate::operator::{Operator, operator_precedence};
use crate::deep::{decompose, copy_ast, rebuild_unary, rebuild_binary};

verus! {

// Building expressions out of a first operand followed by a run of
// (operator, operand) pairs, as the parser reads them. The operator that binds
// loosest, the rightmost of several equal ones, is applied last: to the
// grouping of everything before it and, for a binary operator, to the
// grouping of everything after it. So tighter operators group first and
// operators of one class group left to right.

/// The expression an operator builds.
pub open spec fn operator_kind(op: Operator) -> Option<SKind> {
    match op {
        Operator::ArrayAccess => Some(SKind::AccessArray),
        Operator::StructAccess => Some(SKind::AccessStructField),
        Operator::ExecuteFunction => Some(SKind::ExecuteFn),
        Operator::Increment => Some(SKind::Increment),
        Operator::Decrement => Some(SKind::Decrement),
        Operator::Negate => Some(SKind::Negate),
        Operator::Invert => Some(SKind::Invert),
        Operator::Times => Some(SKind::Multiply),
        Operator::Divide => Some(SKind::Divide),
        Operator::Modulo => Some(SKind::Modulo),
        Operator::Plus => Some(SKind::Add),
        Operator::Minus => Some(SKind::Subtract),
        Operator::GreaterThan => Some(SKind::GreaterThan),
        Operator::LessThan => Some(SKind::LessThan),
        Operator::GreaterThanOrEqual => Some(SKind::GreaterThanOrEqual),
        Operator::LessThanOrEqual => Some(SKind::LessThanOrEqual),
        Operator::Equals => Some(SKind::Equals),
        Operator::NotEquals => Some(SKind::NotEquals),
        Operator::LogicalAnd => Some(SKind::LogicalAnd),
        Operator::LogicalOr => Some(SKind::LogicalOr),
        Operator::Assignment => Some(SKind::Assignment),
    }
}

/// The operator written for an expression of the given kind, if any.
pub open spec fn kind_operator(k: SKind) -> Option<Operator> {
    match k {
        SKind::AccessArray => Some(Operator::ArrayAccess),
        SKind::AccessStructField => Some(Operator::StructAccess),
        SKind::ExecuteFn => Some(Operator::ExecuteFunction),
        SKind::Increment => Some(Operator::Increment),
        SKind::Decrement => Some(Operator::Decrement),
        SKind::Negate => Some(Operator::Negate),
        SKind::Invert => Some(Operator::Invert),
        SKind::Multiply => Some(Operator::Times),
        SKind::Divide => Some(Operator::Divide),
        SKind::Modulo => Some(Operator::Modulo),
        SKind::Add => Some(Operator::Plus),
        SKind::Subtract => Some(Operator::Minus),
        SKind::GreaterThan => Some(Operator::GreaterThan),
        SKind::LessThan => Some(Operator::LessThan),
        SKind::GreaterThanOrEqual => Some(Operator::GreaterThanOrEqual),
        SKind::LessThanOrEqual => Some(Operator::LessThanOrEqual),
        SKind::Equals => Some(Operator::Equals),
        SKind::NotEquals => Some(Operator::NotEquals),
        SKind::LogicalAnd => Some(Operator::LogicalAnd),
        SKind::LogicalOr => Some(Operator::LogicalOr),
        _ => None,
    }
}

/// Whether the operator builds an expression of one operand.
pub open spec fn is_unary_operator(op: Operator) -> bool {
    match op {
        Operator::Increment | Operator::Decrement | Operator::Negate | Operator::Invert => true,
        _ => false,
    }
}

/// The expression `op` builds from its operands: one operand for a unary
/// operator, whose right side is ignored, two otherwise; nothing for a
/// binary operator without its right side.
pub open spec fn make_expression(op: Operator, lhs: AstV, rhs: Option<AstV>) -> Option<AstV> {
    match operator_kind(op) {
        None => None,
        Some(k) => if is_unary_operator(op) {
            Some(AstV::Op(k, seq![lhs]))
        } else {
            match rhs {
                Some(r) => Some(AstV::Op(k, seq![lhs, r])),
                None => None,
            }
        },
    }
}

/// The parts of an expression built by an operator: the operator, its left
/// operand and its right one, if it has one.
pub open spec fn operator_and_operands(a: AstV) -> Result<(Operator, AstV, Option<AstV>), Seq<char>> {
    match a {
        AstV::Op(k, args) => match kind_operator(k) {
            Some(op) => Ok((op, args[0], if is_unary(k) { None } else { Some(args[1]) })),
            None => Err("Unsupported SExpression"@),
        },
        _ => Err("Ast isn't an supported when assigning precedence"@),
    }
}

/// The model of an (operator, operand) pair.
pub open spec fn view_pair(p: (Operator, Option<Ast>)) -> (Operator, Option<AstV>) {
    (
        p.0,
        match p.1 {
            Some(a) => Some(view_ast(a)),
            None => None,
        },
    )
}

/// The place of the operator that binds loosest; of several equally loose
/// ones, the rightmost.
pub open spec fn loosest(items: Seq<(Operator, Option<AstV>)>) -> int
    decreases items.len(),
{
    if items.len() <= 1 {
        0
    } else {
        let j = loosest(items.drop_last());
        if operator_precedence(items.last().0) >= operator_precedence(items[j].0) {
            items.len() - 1
        } else {
            j
        }
    }
}

/// The loosest operator is within the run; no operator before it binds
/// looser, and every operator after it binds tighter.
pub proof fn lemma_loosest(items: Seq<(Operator, Option<AstV>)>)
    requires
        items.len() > 0,
    ensures
        0 <= loosest(items) < items.len(),
        forall|i: int| 0 <= i < loosest(items) ==> operator_precedence(#[trigger] items[i].0) <= operator_precedence(items[loosest(items)].0),
        forall|i: int| loosest(items) < i < items.len() ==> operator_precedence(#[trigger] items[i].0) < operator_precedence(items[loosest(items)].0),
    decreases items.len(),
{
    if items.len() > 1 {
        let d = items.drop_last();
        lemma_loosest(d);
        let jd = loosest(d);
        let n = items.len() - 1;
        let l = loosest(items);
        assert(d[jd] == items[jd]);
        if operator_precedence(items[n].0) >= operator_precedence(items[jd].0) {
            assert(l == n);
            assert forall|i: int| 0 <= i < l implies operator_precedence(#[trigger] items[i].0) <= operator_precedence(items[l].0) by {
                assert(d[i] == items[i]);
                if i != jd {
                    assert(operator_precedence(d[i].0) <= operator_precedence(d[jd].0));
                }
            }
        } else {
            assert(l == jd);
            assert forall|i: int| 0 <= i < l implies operator_precedence(#[trigger] items[i].0) <= operator_precedence(items[l].0) by {
                assert(d[i] == items[i]);
            }
            assert forall|i: int| l < i < items.len() implies operator_precedence(#[trigger] items[i].0) < operator_precedence(items[l].0) by {
                if i < n {
                    assert(d[i] == items[i]);
                }
            }
        }
    }
}

/// Groups a first operand with a run of (operator, operand) pairs: the
/// loosest operator is applied last, to the grouping of what comes before it
/// and, for a binary operator, to the grouping of what comes after it; a
/// one-operand operator applies to what comes before it, and the grouping
/// goes on from there. Nothing where a binary operator has no right operand.
pub open spec fn grouped(lhs: AstV, rhss: Seq<(Operator, Option<AstV>)>) -> Option<AstV>
    decreases rhss.len(),
{
    if rhss.len() == 0 {
        Some(lhs)
    } else {
        let j = loosest(rhss);
        proof {
            lemma_loosest(rhss);
        }
        let op = rhss[j].0;
        match grouped(lhs, rhss.take(j)) {
            None => None,
            Some(left) => if is_unary_operator(op) {
                match make_expression(op, left, None) {
                    None => None,
                    Some(u) => grouped(u, rhss.skip(j + 1)),
                }
            } else {
                match rhss[j].1 {
                    None => None,
                    Some(r) => match grouped(r, rhss.skip(j + 1)) {
                        None => None,
                        Some(right) => make_expression(op, left, Some(right)),
                    },
                }
            },
        }
    }
}

fn operator_skind(op: Operator) -> (k: SKind)
    requires
        operator_kind(op) is Some,
    ensures
        operator_kind(op) == Some(k),
        is_unary(k) == is_unary_operator(op),
{
    match op {
        Operator::ArrayAccess => SKind::AccessArray,
        Operator::StructAccess => SKind::AccessStructField,
        Operator::ExecuteFunction => SKind::ExecuteFn,
        Operator::Increment => SKind::Increment,
        Operator::Decrement => SKind::Decrement,
        Operator::Negate => SKind::Negate,
        Operator::Invert => SKind::Invert,
        Operator::Times => SKind::Multiply,
        Operator::Divide => SKind::Divide,
        Operator::Modulo => SKind::Modulo,
        Operator::Plus => SKind::Add,
        Operator::Minus => SKind::Subtract,
        Operator::GreaterThan => SKind::GreaterThan,
        Operator::LessThan => SKind::LessThan,
        Operator::GreaterThanOrEqual => SKind::GreaterThanOrEqual,
        Operator::LessThanOrEqual => SKind::LessThanOrEqual,
        Operator::Equals => SKind::Equals,
        Operator::NotEquals => SKind::NotEquals,
        Operator::LogicalAnd => SKind::LogicalAnd,
        Operator::LogicalOr => SKind::LogicalOr,
        _ => SKind::Assignment,
    }
}

fn skind_operator(k: SKind) -> (op: Option<Operator>)
    ensures
        op == kind_operator(k),
{
    match k {
        SKind::AccessArray => Some(Operator::ArrayAccess),
        SKind::AccessStructField => Some(Operator::StructAccess),
        SKind::ExecuteFn => Some(Operator::ExecuteFunction),
        SKind::Increment => Some(Operator::Increment),
        SKind::Decrement => Some(Operator::Decrement),
        SKind::Negate => Some(Operator::Negate),
        SKind::Invert => Some(Operator::Invert),
        SKind::Multiply => Some(Operator::Times),
        SKind::Divide => Some(Operator::Divide),
        SKind::Modulo => Some(Operator::Modulo),
        SKind::Add => Some(Operator::Plus),
        SKind::Subtract => Some(Operator::Minus),
        SKind::GreaterThan => Some(Operator::GreaterThan),
        SKind::LessThan => Some(Operator::LessThan),
        SKind::GreaterThanOrEqual => Some(Operator::GreaterThanOrEqual),
        SKind::LessThanOrEqual => Some(Operator::LessThanOrEqual),
        SKind::Equals => Some(Operator::Equals),
        SKind::NotEquals => Some(Operator::NotEquals),
        SKind::LogicalAnd => Some(Operator::LogicalAnd),
        SKind::LogicalOr => Some(Operator::LogicalOr),
        _ => None,
    }
}

pub open spec fn view_opt(a: Option<Ast>) -> Option<AstV> {
    match a {
        Some(x) => Some(view_ast(x)),
        None => None,
    }
}

/// Builds the expression of an operator over its operands. A binary
/// operator needs its right operand.
pub fn create_sexpr(operator: Operator, lhs: Ast, rhs: Option<Ast>) -> (r: Ast)
    requires
        make_expression(operator, lhs@, view_opt(rhs)) is Some,
    ensures
        Some(r@) == make_expression(operator, lhs@, view_opt(rhs)),
{
    let k = operator_skind(operator);
    if is_unary_operator_x(operator) {
        Ast::SExpr(rebuild_unary(k, lhs))
    } else {
        Ast::SExpr(rebuild_binary(k, lhs, rhs.unwrap()))
    }
}

fn is_unary_operator_x(op: Operator) -> (b: bool)
    ensures
        b == is_unary_operator(op),
{
    match op {
        Operator::Increment | Operator::Decrement | Operator::Negate | Operator::Invert => true,
        _ => false,
    }
}

/// Takes apart an expression built by an operator, so that the expression can
/// be rebuilt with another right operand.
pub fn retrieve_operator_and_operands(ast: &Ast) -> (r: Result<(Option<Operator>, Ast, Option<Ast>), String>)
    ensures
        match (r, operator_and_operands(ast@)) {
            (Ok((op, l, rr)), Ok((op2, l2, rr2))) => op == Some(op2) && l@ == l2 && view_opt(rr) == rr2,
            (Err(m), Err(m2)) => m@ == m2,
            _ => false,
        },
{
    match ast {
        Ast::SExpr(s) => {
            let (k, x, y) = decompose(s);
            match skind_operator(k) {
                Some(op) => {
                    let l = copy_ast(x);
                    let rr = match y {
                        Some(y) => Some(copy_ast(y)),
                        None => None,
                    };
                    Ok((Some(op), l, rr))
                }
                None => Err(String::from_str("Unsupported SExpression")),
            }
        }
        _ => Err(String::from_str("Ast isn't an supported when assigning precedence")),
    }
}

/// The place of the loosest operator among `items[lo..hi]`.
fn loosest_in(items: &Vec<(Operator, Option<Ast>)>, lo: usize, hi: usize) -> (j: usize)
    requires
        lo < hi <= items.len(),
    ensures
        j == lo + loosest(view_pairs(items@).subrange(lo as int, hi as int)),
{
    let ghost ps = view_pairs(items@);
    let mut j: usize = lo;
    let mut i: usize = lo + 1;
    while i < hi
        invariant
            lo < i <= hi,
            hi <= items.len(),
            ps == view_pairs(items@),
            ps.len() == items.len(),
            lo <= j < i,
            j - lo == loosest(ps.subrange(lo as int, i as int)),
        decreases hi - i,
    {
        proof {
            let t = ps.subrange(lo as int, i + 1);
            assert(t.drop_last() =~= ps.subrange(lo as int, i as int));
            assert(t.last() == ps[i as int]);
            assert(t[j - lo] == ps[j as int]);
        }
        if items[i].0.precedence() >= items[j].0.precedence() {
            j = i;
        }
        i = i + 1;
    }
    j
}

/// Groups `lhs` with the pairs `items[lo..hi]`.
fn group_range(lhs: Ast, items: &Vec<(Operator, Option<Ast>)>, lo: usize, hi: usize) -> (r: Option<Ast>)
    requires
        lo <= hi <= items.len(),
    ensures
        view_opt(r) == grouped(lhs@, view_pairs(items@).subrange(lo as int, hi as int)),
    decreases hi - lo,
{
    let ghost ps = view_pairs(items@);
    let ghost t = ps.subrange(lo as int, hi as int);
    if lo == hi {
        return Some(lhs);
    }
    let j = loosest_in(items, lo, hi);
    proof {
        lemma_loosest(t);
        assert(t.take(j - lo) =~= ps.subrange(lo as int, j as int));
        assert(t.skip(j - lo + 1) =~= ps.subrange(j + 1, hi as int));
        assert(t[j - lo] == ps[j as int]);
        assert(ps[j as int] == view_pair(items@[j as int]));
    }
    let op = items[j].0;
    let left = match group_range(lhs, items, lo, j) {
        None => return None,
        Some(a) => a,
    };
    if is_unary_operator_x(op) {
        let u = create_sexpr(op, left, None);
        group_range(u, items, j + 1, hi)
    } else {
        match &items[j].1 {
            None => None,
            Some(r) => {
                let r2 = copy_ast(r);
                match group_range(r2, items, j + 1, hi) {
                    None => None,
                    Some(right) => Some(create_sexpr(op, left, Some(right))),
                }
            },
        }
    }
}

/// Groups a first operand with the (operator, operand) pairs that follow it,
/// the loosest operator last and operators of one class left to right.
pub fn group_sexpr_by_precedence(lhs: Ast, rhss: Vec<(Operator, Option<Ast>)>) -> (r: Ast)
    requires
        grouped(lhs@, view_pairs(rhss@)) is Some,
    ensures
        Some(r@) == grouped(lhs@, view_pairs(rhss@)),
{
    assert(view_pairs(rhss@).subrange(0, rhss.len() as int) =~= view_pairs(rhss@));
    match group_range(lhs, &rhss, 0, rhss.len()) {
        Some(a) => a,
        None => Ast::ExpressionList(Vec::new()),
    }
}

/// The models of (operator, operand) pairs.
pub open spec fn view_pairs(v: Seq<(Operator, Option<Ast>)>) -> Seq<(Operator, Option<AstV>)> {
    v.map_values(|p: (Operator, Option<Ast>)| view_pair(p))
}

/// Groups a first operand with the (operator, operand) pairs that follow it,
/// as `group_sexpr_by_precedence` does, or gives nothing where a binary
/// operator lacks its right operand.
pub fn try_group_sexpr_by_precedence(lhs: Ast, rhss: &Vec<(Operator, Option<Ast>)>) -> (r: Option<Ast>)
    ensures
        view_opt(r) == grouped(lhs@, view_pairs(rhss@)),
{
    assert(view_pairs(rhss@).subrange(0, rhss.len() as int) =~= view_pairs(rhss@));
    group_range(lhs, rhss, 0, rhss.len())
}

} // verus!
