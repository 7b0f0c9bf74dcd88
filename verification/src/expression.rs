//! The expression tree of a policy and its mathematical model.

use vstd::prelude::*;

verus! {

/// The mathematical model of a policy: a finite tree over token names.
pub enum Formula {
    Token(Seq<char>),
    Not(Box<Formula>),
    And(Box<Formula>, Box<Formula>),
    Or(Box<Formula>, Box<Formula>),
}

/// Whether the set of presented token names `held` satisfies `f`.
pub open spec fn holds(f: Formula, held: Set<Seq<char>>) -> bool
    decreases f,
{
    match f {
        Formula::Token(name) => held.contains(name),
        Formula::Not(inner) => !holds(*inner, held),
        Formula::And(l, r) => holds(*l, held) && holds(*r, held),
        Formula::Or(l, r) => holds(*l, held) || holds(*r, held),
    }
}

/// The number of operators on the longest path from the root to a token.
pub open spec fn height(f: Formula) -> nat
    decreases f,
{
    match f {
        Formula::Token(_) => 0,
        Formula::Not(inner) => 1 + height(*inner),
        Formula::And(l, r) | Formula::Or(l, r) => 1 + if height(*l) >= height(*r) {
            height(*l)
        } else {
            height(*r)
        },
    }
}

/// Whether the token name `name` occurs in `f`.
pub open spec fn mentions(f: Formula, name: Seq<char>) -> bool
    decreases f,
{
    match f {
        Formula::Token(n) => n == name,
        Formula::Not(inner) => mentions(*inner, name),
        Formula::And(l, r) | Formula::Or(l, r) => mentions(*l, name) || mentions(*r, name),
    }
}

/// A parsed policy. Every node owns its children; the tree is never shared.
#[derive(Debug, Hash)]
pub enum AccessExpression {
    Token(String),
    Not(Box<AccessExpression>),
    And(Box<AccessExpression>, Box<AccessExpression>),
    Or(Box<AccessExpression>, Box<AccessExpression>),
}

/// The formula that an expression tree stands for.
pub open spec fn formula_of(e: AccessExpression) -> Formula
    decreases e,
{
    match e {
        AccessExpression::Token(name) => Formula::Token(name@),
        AccessExpression::Not(inner) => Formula::Not(Box::new(formula_of(*inner))),
        AccessExpression::And(l, r) => Formula::And(
            Box::new(formula_of(*l)),
            Box::new(formula_of(*r)),
        ),
        AccessExpression::Or(l, r) => Formula::Or(
            Box::new(formula_of(*l)),
            Box::new(formula_of(*r)),
        ),
    }
}

impl View for AccessExpression {
    type V = Formula;

    open spec fn view(&self) -> Formula {
        formula_of(*self)
    }
}

/// A second tree of the same formula.
pub fn copy_tree(e: &AccessExpression) -> (c: AccessExpression)
    ensures
        c@ == e@,
    decreases e,
{
    match e {
        AccessExpression::Token(name) => AccessExpression::Token(name.clone()),
        AccessExpression::Not(inner) => AccessExpression::Not(Box::new(copy_tree(inner))),
        AccessExpression::And(l, r) => AccessExpression::And(
            Box::new(copy_tree(l)),
            Box::new(copy_tree(r)),
        ),
        AccessExpression::Or(l, r) => AccessExpression::Or(
            Box::new(copy_tree(l)),
            Box::new(copy_tree(r)),
        ),
    }
}

/// Whether two trees have the same shape and the same names in the same
/// places. Nothing is normalised: a conjunction differs from the one with
/// its operands exchanged.
pub fn same_tree(a: &AccessExpression, b: &AccessExpression) -> (same: bool)
    ensures
        same == (a@ == b@),
    decreases a,
{
    match (a, b) {
        (AccessExpression::Token(m), AccessExpression::Token(n)) => *m == *n,
        (AccessExpression::Not(x), AccessExpression::Not(y)) => same_tree(x, y),
        (AccessExpression::And(l, r), AccessExpression::And(m, s)) => same_tree(l, m) && same_tree(
            r,
            s,
        ),
        (AccessExpression::Or(l, r), AccessExpression::Or(m, s)) => same_tree(l, m) && same_tree(
            r,
            s,
        ),
        _ => false,
    }
}

impl PartialEq for AccessExpression {
    fn eq(&self, other: &AccessExpression) -> (same: bool) {
        same_tree(self, other)
    }
}

impl vstd::std_specs::cmp::PartialEqSpecImpl for AccessExpression {
    open spec fn obeys_eq_spec() -> bool {
        true
    }

    open spec fn eq_spec(&self, other: &AccessExpression) -> bool {
        self@ == other@
    }
}

impl Eq for AccessExpression {

}

impl Clone for AccessExpression {
    fn clone(&self) -> (c: AccessExpression)
        ensures
            c@ == self@,
    {
        copy_tree(self)
    }
}

} // verus!
