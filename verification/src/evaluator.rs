//! The evaluator: does a token set satisfy a policy?

use vstd::prelude::*;
use crate::expression::{AccessExpression, holds};
use crate::tokens::AccessTokens;

verus! {

/// Whether `tokens` satisfies `expr`: a token holds when it is a member,
/// a negation when its operand does not, a conjunction when both operands
/// do, a disjunction when at least one does.
pub fn evaluate(expr: &AccessExpression, tokens: &AccessTokens) -> (b: bool)
    ensures
        b == holds(expr@, tokens@),
    decreases expr,
{
    match expr {
        AccessExpression::Token(name) => tokens.contains(name),
        AccessExpression::Not(inner) => !evaluate(inner, tokens),
        AccessExpression::And(l, r) => evaluate(l, tokens) && evaluate(r, tokens),
        AccessExpression::Or(l, r) => evaluate(l, tokens) || evaluate(r, tokens),
    }
}

/// The decision that a host asks for: `evaluate` on values that it hands over.
pub fn access_evaluate(expression: AccessExpression, tokens: AccessTokens) -> (b: bool)
    ensures
        b == holds(expression@, tokens@),
{
    evaluate(&expression, &tokens)
}

} // verus!
