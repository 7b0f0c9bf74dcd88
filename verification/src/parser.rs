//! The parser: one pass over the characters, left to right.

use vstd::prelude::*;
use crate::error::ParseError;
use crate::expression::{AccessExpression, Formula, height};
use crate::grammar::{
    MAX_DEPTH, Parsed, lemma_name_end_bounds, name_end, parse_and, parse_and_tail, parse_operand, parse_or,
    parse_or_tail, parse_text, skip_spaces, well_formed,
};
use crate::soundness::lemma_parsed_is_well_formed;
use crate::text::{chars_of, name_char, slice_string, space};

verus! {

/// A tree that was read, its height, and the position after it.
struct Piece {
    tree: AccessExpression,
    height: usize,
    end: usize,
}

/// `res` is what the grammar yields, for a part that was looked for at `pos`.
spec fn yields(res: Result<Piece, ParseError>, meant: Parsed, pos: int, len: int) -> bool {
    match meant {
        Ok((f, q)) => {
            &&& res is Ok
            &&& res->Ok_0.tree@ == f
            &&& res->Ok_0.height == height(f)
            &&& res->Ok_0.end == q
            &&& height(f) <= MAX_DEPTH
            &&& pos < q <= len
        },
        Err(e) => res is Err && res->Err_0 == e,
    }
}

fn skip(text: &Vec<char>, pos: usize) -> (p: usize)
    requires
        pos <= text.len(),
    ensures
        p == skip_spaces(text@, pos as int),
        pos <= p <= text.len(),
{
    let mut p: usize = pos;
    while p < text.len() && space(text[p])
        invariant
            pos <= p <= text.len(),
            skip_spaces(text@, p as int) == skip_spaces(text@, pos as int),
        decreases text.len() - p,
    {
        p += 1;
    }
    p
}

fn scan_name(text: &Vec<char>, pos: usize) -> (p: usize)
    requires
        pos <= text.len(),
    ensures
        p == name_end(text@, pos as int),
        pos <= p <= text.len(),
{
    let mut p: usize = pos;
    while p < text.len() && name_char(text[p])
        invariant
            pos <= p <= text.len(),
            name_end(text@, p as int) == name_end(text@, pos as int),
        decreases text.len() - p,
    {
        p += 1;
    }
    p
}

fn operand(text: &Vec<char>, pos: usize, depth: usize) -> (res: Result<Piece, ParseError>)
    requires
        pos <= text.len(),
    ensures
        yields(res, parse_operand(text@, pos as int, depth as nat), pos as int, text.len() as int),
    decreases depth, 0nat, text.len() - pos,
{
    let p = skip(text, pos);
    if p >= text.len() {
        return Err(ParseError::EmptyTokenName);
    }
    let c = text[p];
    if c == '!' {
        if depth == 0 {
            return Err(ParseError::NestingTooDeep);
        }
        match operand(text, p + 1, depth - 1) {
            Ok(inner) => {
                if inner.height >= MAX_DEPTH {
                    Err(ParseError::NestingTooDeep)
                } else {
                    Ok(
                        Piece {
                            tree: AccessExpression::Not(Box::new(inner.tree)),
                            height: inner.height + 1,
                            end: inner.end,
                        },
                    )
                }
            },
            Err(e) => Err(e),
        }
    } else if c == '(' {
        if depth == 0 {
            return Err(ParseError::NestingTooDeep);
        }
        match disjunction(text, p + 1, depth - 1) {
            Ok(inner) => {
                let r = skip(text, inner.end);
                if r >= text.len() {
                    Err(ParseError::UnterminatedGroup)
                } else if text[r] == ')' {
                    Ok(Piece { tree: inner.tree, height: inner.height, end: r + 1 })
                } else {
                    Err(ParseError::UnexpectedCharacter(r))
                }
            },
            Err(ParseError::EmptyTokenName) => Err(ParseError::UnterminatedGroup),
            Err(e) => Err(e),
        }
    } else if name_char(c) {
        let q = scan_name(text, p);
        proof {
            lemma_name_end_bounds(text@, p + 1);
        }
        Ok(Piece { tree: AccessExpression::Token(slice_string(text, p, q)), height: 0, end: q })
    } else {
        Err(ParseError::UnexpectedCharacter(p))
    }
}

fn conjunction(text: &Vec<char>, pos: usize, depth: usize) -> (res: Result<Piece, ParseError>)
    requires
        pos <= text.len(),
    ensures
        yields(res, parse_and(text@, pos as int, depth as nat), pos as int, text.len() as int),
    decreases depth, 2nat, text.len() - pos,
{
    let first = match operand(text, pos, depth) {
        Ok(piece) => piece,
        Err(e) => { return Err(e); },
    };
    let mut left = first.tree;
    let mut h: usize = first.height;
    let mut q: usize = first.end;
    loop
        invariant
            pos < q <= text.len(),
            h == height(left@),
            h <= MAX_DEPTH,
            parse_and(text@, pos as int, depth as nat) == parse_and_tail(
                text@,
                left@,
                q as int,
                depth as nat,
            ),
        decreases text.len() - q,
    {
        let p = skip(text, q);
        if p >= text.len() || text[p] != '&' {
            return Ok(Piece { tree: left, height: h, end: q });
        }
        let right = match operand(text, p + 1, depth) {
            Ok(piece) => piece,
            Err(e) => { return Err(e); },
        };
        if h >= MAX_DEPTH || right.height >= MAX_DEPTH {
            return Err(ParseError::NestingTooDeep);
        }
        h = if h >= right.height { h + 1 } else { right.height + 1 };
        left = AccessExpression::And(Box::new(left), Box::new(right.tree));
        q = right.end;
    }
}

fn disjunction(text: &Vec<char>, pos: usize, depth: usize) -> (res: Result<Piece, ParseError>)
    requires
        pos <= text.len(),
    ensures
        yields(res, parse_or(text@, pos as int, depth as nat), pos as int, text.len() as int),
    decreases depth, 4nat, text.len() - pos,
{
    let first = match conjunction(text, pos, depth) {
        Ok(piece) => piece,
        Err(e) => { return Err(e); },
    };
    let mut left = first.tree;
    let mut h: usize = first.height;
    let mut q: usize = first.end;
    loop
        invariant
            pos < q <= text.len(),
            h == height(left@),
            h <= MAX_DEPTH,
            parse_or(text@, pos as int, depth as nat) == parse_or_tail(
                text@,
                left@,
                q as int,
                depth as nat,
            ),
        decreases text.len() - q,
    {
        let p = skip(text, q);
        if p >= text.len() || text[p] != '|' {
            return Ok(Piece { tree: left, height: h, end: q });
        }
        let right = match conjunction(text, p + 1, depth) {
            Ok(piece) => piece,
            Err(e) => { return Err(e); },
        };
        if h >= MAX_DEPTH || right.height >= MAX_DEPTH {
            return Err(ParseError::NestingTooDeep);
        }
        h = if h >= right.height { h + 1 } else { right.height + 1 };
        left = AccessExpression::Or(Box::new(left), Box::new(right.tree));
        q = right.end;
    }
}

/// `res` is what the meaning `meant` of a policy text asks for: a tree of
/// exactly that formula, or the same error.
pub open spec fn parses_as(
    res: Result<AccessExpression, ParseError>,
    meant: Result<Formula, ParseError>,
) -> bool {
    match meant {
        Ok(f) => res is Ok && res->Ok_0@ == f,
        Err(e) => res is Err && res->Err_0 == e,
    }
}

/// Reads the characters of a policy text.
pub fn parse_chars(text: &Vec<char>) -> (res: Result<AccessExpression, ParseError>)
    ensures
        parses_as(res, parse_text(text@)),
        res matches Ok(e) ==> well_formed(e@) && height(e@) <= MAX_DEPTH,
{
    proof {
        lemma_parsed_is_well_formed(text@);
    }
    if skip(text, 0) >= text.len() {
        return Err(ParseError::EmptyInput);
    }
    match disjunction(text, 0, MAX_DEPTH) {
        Ok(piece) => {
            let r = skip(text, piece.end);
            if r < text.len() {
                Err(ParseError::TrailingInput(r))
            } else {
                Ok(piece.tree)
            }
        },
        Err(e) => Err(e),
    }
}

/// Reads a policy text. The whole text is read or an error is returned:
/// `EmptyInput` for text of whitespace only; `UnterminatedGroup` where the
/// text ends inside a group; `EmptyTokenName` where it ends outside any
/// group and an operand is due; `UnexpectedCharacter` at a character that
/// cannot stand where it does; `TrailingInput` where text follows a
/// complete expression; `NestingTooDeep` where groups and negations nest
/// deeper than `MAX_DEPTH`, or the tree would be higher than that.
pub fn parse_expression(text: &str) -> (res: Result<AccessExpression, ParseError>)
    ensures
        parses_as(res, parse_text(text@)),
        res matches Ok(e) ==> well_formed(e@) && height(e@) <= MAX_DEPTH,
{
    let chars = chars_of(text);
    parse_chars(&chars)
}

impl AccessExpression {
    /// Reads a policy text, as `parse_expression` does.
    pub fn input(text: &str) -> (res: Result<AccessExpression, ParseError>)
        ensures
            parses_as(res, parse_text(text@)),
    {
        parse_expression(text)
    }
}

} // verus!
