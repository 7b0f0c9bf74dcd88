//! What holds of the language as a whole.

use vstd::prelude::*;
use crate::error::ParseError;
use crate::expression::{Formula, height, holds, mentions};
use crate::grammar::{MAX_DEPTH, parse_text, render_operand, render_text, well_formed};
use crate::read_back::{lemma_plain_reads, lemma_render_then_parse, occurs_at};
use crate::soundness::lemma_parsed_is_well_formed;

verus! {


/// A token that a formula does not mention has no say in it: presenting it
/// as well changes no result.
pub proof fn lemma_unmentioned_token_is_irrelevant(
    f: Formula,
    held: Set<Seq<char>>,
    name: Seq<char>,
)
    requires
        !mentions(f, name),
    ensures
        holds(f, held.insert(name)) == holds(f, held),
        holds(f, held.remove(name)) == holds(f, held),
    decreases f,
{
    match f {
        Formula::Token(_) => {},
        Formula::Not(inner) => {
            lemma_unmentioned_token_is_irrelevant(*inner, held, name);
        },
        Formula::And(l, r) | Formula::Or(l, r) => {
            lemma_unmentioned_token_is_irrelevant(*l, held, name);
            lemma_unmentioned_token_is_irrelevant(*r, held, name);
        },
    }
}

/// Round trip: the canonical text of what was read from a text reads back
/// as the same formula.
pub proof fn lemma_round_trip(text: Seq<char>)
    ensures
        parse_text(text) matches Ok(f) ==> parse_text(render_text(f)) == Ok::<Formula, ParseError>(
            f,
        ),
{
    lemma_parsed_is_well_formed(text);
    match parse_text(text) {
        Ok(f) => {
            lemma_render_then_parse(f);
        },
        Err(_) => {},
    }
}

/// Two well-formed formulas of at most `MAX_DEPTH` levels with the same
/// canonical text are the same formula.
pub proof fn lemma_canonical_text_tells_apart(f: Formula, g: Formula)
    requires
        well_formed(f),
        well_formed(g),
        height(f) <= MAX_DEPTH,
        height(g) <= MAX_DEPTH,
        render_text(f) == render_text(g),
    ensures
        f == g,
{
    lemma_render_then_parse(f);
    lemma_render_then_parse(g);
}

/// Precedence: without parentheses `&` binds tighter than `|`. For
/// operands `x`, `y` and `z`, the text `x | y & z` reads as the disjunction
/// of `x` with the conjunction of `y` and `z`, and so does the canonical
/// text of that disjunction, in which the conjunction stands in parentheses.
pub proof fn lemma_and_binds_tighter(x: Formula, y: Formula, z: Formula)
    requires
        well_formed(x),
        well_formed(y),
        well_formed(z),
        height(x) < MAX_DEPTH,
        height(y) + 1 < MAX_DEPTH,
        height(z) + 1 < MAX_DEPTH,
    ensures
        ({
            let either = Formula::Or(
                Box::new(x),
                Box::new(Formula::And(Box::new(y), Box::new(z))),
            );
            let plain = render_operand(x) + seq![' ', '|', ' '] + render_operand(y) + seq![
                ' ',
                '&',
                ' ',
            ] + render_operand(z);
            &&& parse_text(plain) == Ok::<Formula, ParseError>(either)
            &&& parse_text(render_text(either)) == Ok::<Formula, ParseError>(either)
        }),
{
    let both = Formula::And(Box::new(y), Box::new(z));
    let either = Formula::Or(Box::new(x), Box::new(both));
    assert(well_formed(both) && height(both) < MAX_DEPTH);
    lemma_render_then_parse(either);
    let a = render_operand(x);
    let b = render_operand(y);
    let c = render_operand(z);
    let s = a + seq![' ', '|', ' '] + b + seq![' ', '&', ' '] + c;
    let q1 = a.len() as int;
    let q2 = q1 + 3 + b.len();
    assert(occurs_at(s, 0, a));
    assert(occurs_at(s, q1 + 3, b));
    assert(occurs_at(s, q2 + 3, c));
    lemma_plain_reads(s, x, y, z, q1, q2);
}

/// Grouping decides: for every set of tokens the disjunction of `x` with
/// the conjunction of `y` and `z` holds when `x` does, whatever `z` is; the
/// conjunction of the disjunction of `x` and `y` with `z` never holds where
/// `z` does not.
pub proof fn lemma_grouping_decides(x: Formula, y: Formula, z: Formula, held: Set<Seq<char>>)
    requires
        holds(x, held),
        !holds(z, held),
    ensures
        holds(Formula::Or(Box::new(x), Box::new(Formula::And(Box::new(y), Box::new(z)))), held),
        !holds(Formula::And(Box::new(Formula::Or(Box::new(x), Box::new(y))), Box::new(z)), held),
{
}

} // verus!
