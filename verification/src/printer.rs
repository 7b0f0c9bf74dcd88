//! The canonical printer.

use vstd::prelude::*;
use vstd::string::StringExecFns;
use crate::error::ParseError;
use crate::expression::{AccessExpression, Formula, height};
use crate::grammar::{MAX_DEPTH, parse_text, render_operand, render_text, well_formed};
use crate::read_back::lemma_render_then_parse;

verus! {

fn write_operand(e: &AccessExpression, out: &mut String)
    ensures
        final(out)@ == old(out)@ + render_operand(e@),
    decreases e, 1nat,
{
    match e {
        AccessExpression::Token(name) => {
            out.append(name.as_str());
        },
        AccessExpression::Not(inner) => {
            out.push('!');
            write_operand(inner, out);
            assert(out@ =~= old(out)@ + render_operand(e@));
        },
        _ => {
            out.push('(');
            write_text(e, out);
            out.push(')');
            assert(out@ =~= old(out)@ + render_operand(e@));
        },
    }
}

fn write_text(e: &AccessExpression, out: &mut String)
    ensures
        final(out)@ == old(out)@ + render_text(e@),
    decreases e, 0nat,
{
    match e {
        AccessExpression::Token(name) => {
            out.append(name.as_str());
        },
        AccessExpression::Not(inner) => {
            out.push('!');
            write_operand(inner, out);
            assert(out@ =~= old(out)@ + render_text(e@));
        },
        AccessExpression::And(l, r) => {
            write_operand(l, out);
            out.push(' ');
            out.push('&');
            out.push(' ');
            write_operand(r, out);
            assert(out@ =~= old(out)@ + render_text(e@));
        },
        AccessExpression::Or(l, r) => {
            write_operand(l, out);
            out.push(' ');
            out.push('|');
            out.push(' ');
            write_operand(r, out);
            assert(out@ =~= old(out)@ + render_text(e@));
        },
    }
}

/// The canonical text of `expr`: token names as they are, `!` before what
/// it negates, ` & ` and ` | ` between their operands, and parentheses
/// around every operand that is itself a conjunction or a disjunction.
/// Where the names are names of the grammar and the tree is no higher than
/// `MAX_DEPTH`, as in every tree that was parsed, the text reads back as
/// the same tree.
pub fn render(expr: &AccessExpression) -> (out: String)
    ensures
        out@ == render_text(expr@),
        well_formed(expr@) && height(expr@) <= MAX_DEPTH ==> parse_text(out@) == Ok::<
            Formula,
            ParseError,
        >(expr@),
{
    proof {
        if well_formed(expr@) && height(expr@) <= MAX_DEPTH {
            lemma_render_then_parse(expr@);
        }
    }
    let mut out = String::new();
    write_text(expr, &mut out);
    assert(out@ =~= render_text(expr@));
    out
}

impl AccessExpression {
    /// The canonical text, as `render` gives it.
    pub fn output(&self) -> (out: String)
        ensures
            out@ == render_text(self@),
            well_formed(self@) && height(self@) <= MAX_DEPTH ==> parse_text(out@) == Ok::<
                Formula,
                ParseError,
            >(self@),
    {
        render(self)
    }
}

} // verus!
