//! The grammar of policy text, as mathematical functions on characters.
//!
//! ```text
//! expr     := and_expr ( "|" and_expr )*
//! and_expr := operand ( "&" operand )*
//! operand  := "!" operand | NAME | "(" expr ")"
//! ```
//!
//! A name is a longest run of characters that are neither whitespace nor
//! one of `! & | ( )`. Whitespace between names and symbols means nothing.
//! Both operators group to the left.

use vstd::prelude::*;
use crate::error::ParseError;
use crate::expression::{Formula, height};

verus! {

/// The deepest tree, by `height`, and the deepest nesting of groups and
/// negations, that the parser accepts.
pub const MAX_DEPTH: usize = 64;

/// Whitespace: a space, a tab, a line feed or a carriage return.
pub open spec fn is_space(c: char) -> bool {
    c == ' ' || c == '\t' || c == '\n' || c == '\r'
}

/// The characters that carry the structure of a policy.
pub open spec fn is_symbol(c: char) -> bool {
    c == '!' || c == '&' || c == '|' || c == '(' || c == ')'
}

/// Every other character can stand in a token name.
pub open spec fn is_name_char(c: char) -> bool {
    !is_space(c) && !is_symbol(c)
}

/// A token name: not empty, made of name characters only.
pub open spec fn is_name(name: Seq<char>) -> bool {
    name.len() > 0 && forall|i: int| 0 <= i < name.len() ==> is_name_char(#[trigger] name[i])
}

/// Every token name in `f` is a name of the grammar.
pub open spec fn well_formed(f: Formula) -> bool
    decreases f,
{
    match f {
        Formula::Token(name) => is_name(name),
        Formula::Not(inner) => well_formed(*inner),
        Formula::And(l, r) | Formula::Or(l, r) => well_formed(*l) && well_formed(*r),
    }
}

/// The first position at or after `pos` that holds no whitespace.
pub open spec fn skip_spaces(s: Seq<char>, pos: int) -> int
    decreases s.len() - pos,
{
    if 0 <= pos < s.len() && is_space(s[pos]) {
        skip_spaces(s, pos + 1)
    } else {
        pos
    }
}

/// The first position at or after `pos` that holds no name character.
pub open spec fn name_end(s: Seq<char>, pos: int) -> int
    decreases s.len() - pos,
{
    if 0 <= pos < s.len() && is_name_char(s[pos]) {
        name_end(s, pos + 1)
    } else {
        pos
    }
}

/// A name ends at or after the place where it starts, and within the text.
pub proof fn lemma_name_end_bounds(s: Seq<char>, pos: int)
    requires
        0 <= pos <= s.len(),
    ensures
        pos <= name_end(s, pos) <= s.len(),
        forall|i: int| pos <= i < name_end(s, pos) ==> is_name_char(#[trigger] s[i]),
        name_end(s, pos) < s.len() ==> !is_name_char(s[name_end(s, pos)]),
    decreases s.len() - pos,
{
    if pos < s.len() && is_name_char(s[pos]) {
        lemma_name_end_bounds(s, pos + 1);
    }
}

/// Whitespace ends at or after the place where it starts, and within the text.
pub proof fn lemma_skip_spaces_bounds(s: Seq<char>, pos: int)
    requires
        0 <= pos <= s.len(),
    ensures
        pos <= skip_spaces(s, pos) <= s.len(),
        skip_spaces(s, pos) < s.len() ==> !is_space(s[skip_spaces(s, pos)]),
    decreases s.len() - pos,
{
    if pos < s.len() && is_space(s[pos]) {
        lemma_skip_spaces_bounds(s, pos + 1);
    }
}

/// What a part of the grammar yields: the formula read and the position
/// after it, or the reason for which the text is rejected.
pub type Parsed = Result<(Formula, int), ParseError>;

/// Reads one operand, starting at or after `pos`, with `depth` levels of
/// groups and negations left to open. Where the text ends and an operand
/// is due, the answer is `EmptyTokenName`; inside a group it becomes
/// `UnterminatedGroup`, as it does where the text ends and `)` is due.
pub open spec fn parse_operand(s: Seq<char>, pos: int, depth: nat) -> Parsed
    decreases depth, 0nat, s.len() - pos,
{
    let p = skip_spaces(s, pos);
    if !(0 <= p < s.len()) {
        Err(ParseError::EmptyTokenName)
    } else if s[p] == '!' {
        if depth == 0 {
            Err(ParseError::NestingTooDeep)
        } else {
            match parse_operand(s, p + 1, (depth - 1) as nat) {
                Ok((inner, q)) => if height(inner) >= MAX_DEPTH {
                    Err(ParseError::NestingTooDeep)
                } else {
                    Ok((Formula::Not(Box::new(inner)), q))
                },
                Err(e) => Err(e),
            }
        }
    } else if s[p] == '(' {
        if depth == 0 {
            Err(ParseError::NestingTooDeep)
        } else {
            match parse_or(s, p + 1, (depth - 1) as nat) {
                Ok((inner, q)) => {
                    let r = skip_spaces(s, q);
                    if !(0 <= r < s.len()) {
                        Err(ParseError::UnterminatedGroup)
                    } else if s[r] == ')' {
                        Ok((inner, r + 1))
                    } else {
                        Err(ParseError::UnexpectedCharacter(r as usize))
                    }
                },
                Err(ParseError::EmptyTokenName) => Err(ParseError::UnterminatedGroup),
                Err(e) => Err(e),
            }
        }
    } else if is_name_char(s[p]) {
        Ok((Formula::Token(s.subrange(p, name_end(s, p))), name_end(s, p)))
    } else {
        Err(ParseError::UnexpectedCharacter(p as usize))
    }
}

/// Joins `left` with each further operand that `&` introduces at `pos`.
/// The test `pos < q` is what makes the definition terminate; an operand
/// always ends after the place where it was looked for.
pub open spec fn parse_and_tail(s: Seq<char>, left: Formula, pos: int, depth: nat) -> Parsed
    decreases depth, 1nat, s.len() - pos,
{
    let p = skip_spaces(s, pos);
    if 0 <= p < s.len() && s[p] == '&' {
        match parse_operand(s, p + 1, depth) {
            Ok((right, q)) => if height(left) >= MAX_DEPTH || height(right) >= MAX_DEPTH || !(pos
                < q <= s.len()) {
                Err(ParseError::NestingTooDeep)
            } else {
                parse_and_tail(s, Formula::And(Box::new(left), Box::new(right)), q, depth)
            },
            Err(e) => Err(e),
        }
    } else {
        Ok((left, pos))
    }
}

/// Reads operands joined by `&`.
pub open spec fn parse_and(s: Seq<char>, pos: int, depth: nat) -> Parsed
    decreases depth, 2nat, s.len() - pos,
{
    match parse_operand(s, pos, depth) {
        Ok((first, q)) => parse_and_tail(s, first, q, depth),
        Err(e) => Err(e),
    }
}

/// Joins `left` with each further conjunction that `|` introduces at `pos`.
pub open spec fn parse_or_tail(s: Seq<char>, left: Formula, pos: int, depth: nat) -> Parsed
    decreases depth, 3nat, s.len() - pos,
{
    let p = skip_spaces(s, pos);
    if 0 <= p < s.len() && s[p] == '|' {
        match parse_and(s, p + 1, depth) {
            Ok((right, q)) => if height(left) >= MAX_DEPTH || height(right) >= MAX_DEPTH || !(pos
                < q <= s.len()) {
                Err(ParseError::NestingTooDeep)
            } else {
                parse_or_tail(s, Formula::Or(Box::new(left), Box::new(right)), q, depth)
            },
            Err(e) => Err(e),
        }
    } else {
        Ok((left, pos))
    }
}

/// Reads conjunctions joined by `|`.
pub open spec fn parse_or(s: Seq<char>, pos: int, depth: nat) -> Parsed
    decreases depth, 4nat, s.len() - pos,
{
    match parse_and(s, pos, depth) {
        Ok((first, q)) => parse_or_tail(s, first, q, depth),
        Err(e) => Err(e),
    }
}

/// What a whole policy text means: its formula, or why it is rejected.
pub open spec fn parse_text(s: Seq<char>) -> Result<Formula, ParseError> {
    if skip_spaces(s, 0) >= s.len() {
        Err(ParseError::EmptyInput)
    } else {
        match parse_or(s, 0, MAX_DEPTH as nat) {
            Ok((f, q)) => {
                let r = skip_spaces(s, q);
                if 0 <= r < s.len() {
                    Err(ParseError::TrailingInput(r as usize))
                } else {
                    Ok(f)
                }
            },
            Err(e) => Err(e),
        }
    }
}

/// The text of `f` where it stands as an operand: a binary formula is put
/// in parentheses.
pub open spec fn render_operand(f: Formula) -> Seq<char>
    decreases f, 1nat,
{
    match f {
        Formula::Token(name) => name,
        Formula::Not(inner) => seq!['!'] + render_operand(*inner),
        Formula::And(_, _) | Formula::Or(_, _) => seq!['('] + render_text(f) + seq![')'],
    }
}

/// The canonical text of `f`.
pub open spec fn render_text(f: Formula) -> Seq<char>
    decreases f, 0nat,
{
    match f {
        Formula::Token(name) => name,
        Formula::Not(inner) => seq!['!'] + render_operand(*inner),
        Formula::And(l, r) => render_operand(*l) + seq![' ', '&', ' '] + render_operand(*r),
        Formula::Or(l, r) => render_operand(*l) + seq![' ', '|', ' '] + render_operand(*r),
    }
}

} // verus!
