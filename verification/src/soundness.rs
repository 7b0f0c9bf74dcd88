//! What the grammar reads is well formed, and which errors speak of the
//! text as a whole.

use vstd::prelude::*;
use crate::error::ParseError;
use crate::expression::{Formula, height};
use crate::grammar::{
    MAX_DEPTH, Parsed, is_name, is_name_char, is_space, lemma_name_end_bounds,
    lemma_skip_spaces_bounds, name_end, parse_and, parse_and_tail, parse_operand, parse_or,
    parse_or_tail, parse_text, skip_spaces, well_formed,
};

verus! {

/// What is read is well formed, no higher than `MAX_DEPTH`, and ends
/// within the text, at or after `pos`; and no part of the grammar reports
/// the two errors that speak of the text as a whole.
pub open spec fn sound(r: Parsed, pos: int, len: int) -> bool {
    match r {
        Ok((f, q)) => well_formed(f) && height(f) <= MAX_DEPTH && pos <= q <= len,
        Err(e) => e != ParseError::EmptyInput && !(e is TrailingInput),
    }
}

/// An operand that was read is sound, and ends after the place where it
/// was looked for: the test on positions in `parse_and_tail` and in
/// `parse_or_tail` never fails.
pub proof fn lemma_operand_sound(s: Seq<char>, pos: int, depth: nat)
    requires
        0 <= pos <= s.len(),
    ensures
        sound(parse_operand(s, pos, depth), pos + 1, s.len() as int),
    decreases depth, 0nat, s.len() - pos,
{
    lemma_skip_spaces_bounds(s, pos);
    let p = skip_spaces(s, pos);
    if 0 <= p < s.len() {
        if s[p] == '!' {
            if depth > 0 {
                lemma_operand_sound(s, p + 1, (depth - 1) as nat);
            }
        } else if s[p] == '(' {
            if depth > 0 {
                lemma_or_sound(s, p + 1, (depth - 1) as nat);
                match parse_or(s, p + 1, (depth - 1) as nat) {
                    Ok((_, q)) => {
                        lemma_skip_spaces_bounds(s, q);
                    },
                    Err(_) => {},
                }
            }
        } else if is_name_char(s[p]) {
            lemma_name_end_bounds(s, p);
            lemma_name_end_bounds(s, p + 1);
            let e = name_end(s, p);
            assert(is_name(s.subrange(p, e))) by {
                assert forall|i: int| 0 <= i < e - p implies is_name_char(
                    #[trigger] s.subrange(p, e)[i],
                ) by {
                    assert(is_name_char(s[p + i]));
                }
            }
        }
    }
}

/// Joining further operands to a sound formula gives a sound formula.
proof fn lemma_and_tail_sound(s: Seq<char>, left: Formula, pos: int, depth: nat)
    requires
        0 <= pos <= s.len(),
        well_formed(left),
        height(left) <= MAX_DEPTH,
    ensures
        sound(parse_and_tail(s, left, pos, depth), pos, s.len() as int),
    decreases depth, 1nat, s.len() - pos,
{
    lemma_skip_spaces_bounds(s, pos);
    let p = skip_spaces(s, pos);
    if 0 <= p < s.len() && s[p] == '&' {
        lemma_operand_sound(s, p + 1, depth);
        match parse_operand(s, p + 1, depth) {
            Ok((right, q)) => {
                if !(height(left) >= MAX_DEPTH || height(right) >= MAX_DEPTH || !(pos < q
                    <= s.len())) {
                    lemma_and_tail_sound(
                        s,
                        Formula::And(Box::new(left), Box::new(right)),
                        q,
                        depth,
                    );
                }
            },
            Err(_) => {},
        }
    }
}

/// A conjunction that was read is sound, and not empty.
pub proof fn lemma_and_sound(s: Seq<char>, pos: int, depth: nat)
    requires
        0 <= pos <= s.len(),
    ensures
        sound(parse_and(s, pos, depth), pos + 1, s.len() as int),
    decreases depth, 2nat, s.len() - pos,
{
    lemma_operand_sound(s, pos, depth);
    match parse_operand(s, pos, depth) {
        Ok((first, q)) => {
            lemma_and_tail_sound(s, first, q, depth);
        },
        Err(_) => {},
    }
}

/// Joining further conjunctions to a sound formula gives a sound formula.
proof fn lemma_or_tail_sound(s: Seq<char>, left: Formula, pos: int, depth: nat)
    requires
        0 <= pos <= s.len(),
        well_formed(left),
        height(left) <= MAX_DEPTH,
    ensures
        sound(parse_or_tail(s, left, pos, depth), pos, s.len() as int),
    decreases depth, 3nat, s.len() - pos,
{
    lemma_skip_spaces_bounds(s, pos);
    let p = skip_spaces(s, pos);
    if 0 <= p < s.len() && s[p] == '|' {
        lemma_and_sound(s, p + 1, depth);
        match parse_and(s, p + 1, depth) {
            Ok((right, q)) => {
                if !(height(left) >= MAX_DEPTH || height(right) >= MAX_DEPTH || !(pos < q
                    <= s.len())) {
                    lemma_or_tail_sound(s, Formula::Or(Box::new(left), Box::new(right)), q, depth);
                }
            },
            Err(_) => {},
        }
    }
}

/// A disjunction that was read is sound, and not empty.
pub proof fn lemma_or_sound(s: Seq<char>, pos: int, depth: nat)
    requires
        0 <= pos <= s.len(),
    ensures
        sound(parse_or(s, pos, depth), pos + 1, s.len() as int),
    decreases depth, 4nat, s.len() - pos,
{
    lemma_and_sound(s, pos, depth);
    match parse_and(s, pos, depth) {
        Ok((first, q)) => {
            lemma_or_tail_sound(s, first, q, depth);
        },
        Err(_) => {},
    }
}

/// Every formula that the grammar reads from a text is well formed and no
/// higher than `MAX_DEPTH`.
pub proof fn lemma_parsed_is_well_formed(text: Seq<char>)
    ensures
        parse_text(text) matches Ok(f) ==> well_formed(f) && height(f) <= MAX_DEPTH,
{
    lemma_or_sound(text, 0, MAX_DEPTH as nat);
}

/// Whether `s` holds nothing but whitespace.
pub open spec fn is_blank(s: Seq<char>) -> bool {
    forall|i: int| 0 <= i < s.len() ==> is_space(#[trigger] s[i])
}

/// Whitespace runs to the end of the text exactly where nothing else
/// follows.
proof fn lemma_skip_to_end(s: Seq<char>, pos: int)
    requires
        0 <= pos <= s.len(),
    ensures
        skip_spaces(s, pos) >= s.len() <==> forall|i: int|
            pos <= i < s.len() ==> is_space(#[trigger] s[i]),
    decreases s.len() - pos,
{
    if pos < s.len() {
        lemma_skip_to_end(s, pos + 1);
    }
}

/// `EmptyInput` is the answer to blank text and to no other.
pub proof fn lemma_empty_input(text: Seq<char>)
    ensures
        parse_text(text) == Err::<Formula, ParseError>(ParseError::EmptyInput) <==> is_blank(text),
{
    lemma_skip_to_end(text, 0);
    lemma_or_sound(text, 0, MAX_DEPTH as nat);
}

/// `TrailingInput` is the answer exactly where a complete expression was
/// read from the start of the text and something other than whitespace
/// follows it; the position is that of the first such character.
pub proof fn lemma_trailing_input(text: Seq<char>)
    ensures
        (parse_text(text) matches Err(e) && e is TrailingInput) <==> (!is_blank(text) && (parse_or(
            text,
            0,
            MAX_DEPTH as nat,
        ) matches Ok((_, q)) && skip_spaces(text, q) < text.len())),
        parse_text(text) matches Err(ParseError::TrailingInput(r)) ==> (parse_or(
            text,
            0,
            MAX_DEPTH as nat,
        ) matches Ok((_, q)) && r == skip_spaces(text, q) as usize),
{
    lemma_skip_to_end(text, 0);
    lemma_or_sound(text, 0, MAX_DEPTH as nat);
    match parse_or(text, 0, MAX_DEPTH as nat) {
        Ok((_, q)) => {
            lemma_skip_spaces_bounds(text, q);
        },
        Err(_) => {},
    }
}

} // verus!
