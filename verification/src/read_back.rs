//! Canonical text reads back: the proofs, from operands up to whole texts.

use vstd::prelude::*;
use crate::error::ParseError;
use crate::expression::{Formula, height};
use crate::grammar::{
    MAX_DEPTH, is_name_char, is_space, name_end, parse_and, parse_and_tail, parse_operand,
    parse_or, parse_or_tail, parse_text, render_operand, render_text, skip_spaces, well_formed,
};

verus! {

/// `part` stands in `s` at `pos`.
pub open spec fn occurs_at(s: Seq<char>, pos: int, part: Seq<char>) -> bool {
    &&& 0 <= pos
    &&& pos + part.len() <= s.len()
    &&& forall|i: int| 0 <= i < part.len() ==> s[pos + i] == #[trigger] part[i]
}

/// No name goes on at `q`.
pub open spec fn stops(s: Seq<char>, q: int) -> bool {
    q >= s.len() || !is_name_char(s[q])
}

/// The text ends at `q`, or a group is closed there.
pub open spec fn closes(s: Seq<char>, q: int) -> bool {
    q >= s.len() || s[q] == ')'
}

/// Whether `f` is a conjunction or a disjunction.
pub open spec fn is_binary(f: Formula) -> bool {
    f is And || f is Or
}

/// How many levels of groups and negations the canonical text of `f` opens.
pub open spec fn nesting(f: Formula) -> nat {
    match f {
        Formula::And(l, r) | Formula::Or(l, r) => if height(*l) >= height(*r) {
            height(*l)
        } else {
            height(*r)
        },
        _ => height(f),
    }
}

/// A part of a part stands in the whole, where the two offsets add up.
pub proof fn lemma_part(s: Seq<char>, pos: int, whole: Seq<char>, off: int, part: Seq<char>)
    requires
        occurs_at(s, pos, whole),
        occurs_at(whole, off, part),
    ensures
        occurs_at(s, pos + off, part),
{
    assert forall|i: int| 0 <= i < part.len() implies s[pos + off + i] == #[trigger] part[i] by {
        assert(whole[off + i] == part[i]);
        assert(s[pos + (off + i)] == whole[off + i]);
    }
}

/// A run of name characters that stops at `e` is a name that ends at `e`.
proof fn lemma_name_run(s: Seq<char>, pos: int, e: int)
    requires
        0 <= pos <= e <= s.len(),
        forall|i: int| pos <= i < e ==> is_name_char(#[trigger] s[i]),
        stops(s, e),
    ensures
        name_end(s, pos) == e,
    decreases e - pos,
{
    if pos < e {
        assert(is_name_char(s[pos]));
        lemma_name_run(s, pos + 1, e);
    }
}

/// The canonical text of an operand is not empty and does not start with
/// whitespace.
proof fn lemma_operand_starts(f: Formula)
    requires
        well_formed(f),
    ensures
        render_operand(f).len() > 0,
        !is_space(render_operand(f)[0]),
    decreases f,
{
    match f {
        Formula::Token(name) => {
            assert(is_name_char(name[0]));
        },
        Formula::Not(inner) => {},
        _ => {},
    }
}

/// So is the canonical text of a whole formula.
proof fn lemma_text_starts(f: Formula)
    requires
        well_formed(f),
    ensures
        render_text(f).len() > 0,
        !is_space(render_text(f)[0]),
{
    match f {
        Formula::Token(name) => {
            assert(is_name_char(name[0]));
        },
        Formula::Not(inner) => {},
        Formula::And(l, r) | Formula::Or(l, r) => {
            lemma_operand_starts(*l);
        },
    }
}

/// Where the canonical text of the operand `f` stands in `s` at `pos`, after
/// whitespace from `from` on, the grammar reads `f` there and nothing else.
proof fn lemma_operand_reads_back(s: Seq<char>, from: int, pos: int, f: Formula, depth: nat)
    requires
        well_formed(f),
        height(f) <= depth,
        height(f) <= MAX_DEPTH,
        0 <= from <= pos,
        skip_spaces(s, from) == pos,
        occurs_at(s, pos, render_operand(f)),
        stops(s, pos + render_operand(f).len()),
    ensures
        parse_operand(s, from, depth) == Ok::<(Formula, int), ParseError>(
            (f, pos + render_operand(f).len()),
        ),
    decreases f, if is_binary(f) { 1nat } else { 0nat },
{
    let t = render_operand(f);
    let end = pos + t.len();
    lemma_operand_starts(f);
    assert(s[pos + 0] == t[0]);
    match f {
        Formula::Token(name) => {
            assert forall|i: int| pos <= i < end implies is_name_char(#[trigger] s[i]) by {
                assert(s[pos + (i - pos)] == name[i - pos]);
            }
            lemma_name_run(s, pos, end);
            assert(s.subrange(pos, end) =~= name) by {
                assert forall|i: int| 0 <= i < name.len() implies s.subrange(pos, end)[i]
                    == name[i] by {
                    assert(s[pos + i] == name[i]);
                }
            }
            assert(is_name_char(name[0]));
        },
        Formula::Not(inner) => {
            let u = render_operand(*inner);
            lemma_operand_starts(*inner);
            assert(occurs_at(t, 1, u));
            lemma_part(s, pos, t, 1, u);
            assert(s[pos + 1 + 0] == u[0]);
            assert(skip_spaces(s, pos + 1) == pos + 1);
            lemma_operand_reads_back(s, pos + 1, pos + 1, *inner, (depth - 1) as nat);
        },
        _ => {
            let u = render_text(f);
            lemma_text_starts(f);
            assert(occurs_at(t, 1, u));
            lemma_part(s, pos, t, 1, u);
            assert(s[pos + 1 + 0] == u[0]);
            assert(skip_spaces(s, pos + 1) == pos + 1);
            let q = pos + 1 + u.len();
            assert(t[u.len() as int + 1] == ')');
            assert(s[pos + (u.len() as int + 1)] == t[u.len() as int + 1]);
            assert(s[q] == ')');
            lemma_text_reads_back(s, pos + 1, pos + 1, f, (depth - 1) as nat);
            assert(skip_spaces(s, q) == q);
        },
    }
}

/// The same for a whole expression, up to the end of the text or of the
/// group that holds it.
proof fn lemma_text_reads_back(s: Seq<char>, from: int, pos: int, f: Formula, depth: nat)
    requires
        well_formed(f),
        nesting(f) <= depth,
        height(f) <= MAX_DEPTH,
        0 <= from <= pos,
        skip_spaces(s, from) == pos,
        occurs_at(s, pos, render_text(f)),
        closes(s, pos + render_text(f).len()),
    ensures
        parse_or(s, from, depth) == Ok::<(Formula, int), ParseError>(
            (f, pos + render_text(f).len()),
        ),
    decreases f, if is_binary(f) { 0nat } else { 1nat },
{
    let t = render_text(f);
    let end = pos + t.len();
    assert(skip_spaces(s, end) == end);
    match f {
        Formula::And(l, r) => {
            let a = render_operand(*l);
            let b = render_operand(*r);
            let q1 = pos + a.len();
            lemma_operand_starts(*r);
            assert(occurs_at(t, 0, a));
            lemma_part(s, pos, t, 0, a);
            assert(occurs_at(t, a.len() as int + 3, b));
            lemma_part(s, pos, t, a.len() as int + 3, b);
            lemma_gap(s, pos, t, a.len() as int, '&');
            assert(s[q1 + 3 + 0] == b[0]);
            assert(skip_spaces(s, q1 + 3) == q1 + 3);
            assert(skip_spaces(s, q1 + 2) == q1 + 3);
            assert(skip_spaces(s, q1 + 1) == q1 + 1);
            assert(skip_spaces(s, q1) == q1 + 1);
            lemma_operand_reads_back(s, from, pos, *l, depth);
            lemma_operand_reads_back(s, q1 + 2, q1 + 3, *r, depth);
            assert(parse_and_tail(s, f, end, depth) == Ok::<(Formula, int), ParseError>((f, end)));
            assert(parse_and_tail(s, *l, q1, depth) == Ok::<(Formula, int), ParseError>((f, end)));
            assert(parse_and(s, from, depth) == Ok::<(Formula, int), ParseError>((f, end)));
            assert(parse_or_tail(s, f, end, depth) == Ok::<(Formula, int), ParseError>((f, end)));
        },
        Formula::Or(l, r) => {
            let a = render_operand(*l);
            let b = render_operand(*r);
            let q1 = pos + a.len();
            lemma_operand_starts(*r);
            assert(occurs_at(t, 0, a));
            lemma_part(s, pos, t, 0, a);
            assert(occurs_at(t, a.len() as int + 3, b));
            lemma_part(s, pos, t, a.len() as int + 3, b);
            lemma_gap(s, pos, t, a.len() as int, '|');
            assert(s[q1 + 3 + 0] == b[0]);
            assert(skip_spaces(s, q1 + 3) == q1 + 3);
            assert(skip_spaces(s, q1 + 2) == q1 + 3);
            assert(skip_spaces(s, q1 + 1) == q1 + 1);
            assert(skip_spaces(s, q1) == q1 + 1);
            lemma_operand_reads_back(s, from, pos, *l, depth);
            lemma_operand_reads_back(s, q1 + 2, q1 + 3, *r, depth);
            assert(parse_and_tail(s, *l, q1, depth) == Ok::<(Formula, int), ParseError>((*l, q1)));
            assert(parse_and(s, from, depth) == Ok::<(Formula, int), ParseError>((*l, q1)));
            assert(parse_and_tail(s, *r, end, depth) == Ok::<(Formula, int), ParseError>(
                (*r, end),
            ));
            assert(parse_and(s, q1 + 2, depth) == Ok::<(Formula, int), ParseError>((*r, end)));
            assert(parse_or_tail(s, f, end, depth) == Ok::<(Formula, int), ParseError>((f, end)));
            assert(parse_or_tail(s, *l, q1, depth) == Ok::<(Formula, int), ParseError>((f, end)));
        },
        _ => {
            assert(t == render_operand(f));
            lemma_operand_reads_back(s, from, pos, f, depth);
            assert(parse_and_tail(s, f, end, depth) == Ok::<(Formula, int), ParseError>((f, end)));
            assert(parse_and(s, from, depth) == Ok::<(Formula, int), ParseError>((f, end)));
            assert(parse_or_tail(s, f, end, depth) == Ok::<(Formula, int), ParseError>((f, end)));
        },
    }
}

/// Between the operands of a binary formula stand a space, the operator
/// and a space.
proof fn lemma_gap(s: Seq<char>, pos: int, t: Seq<char>, at: int, op: char)
    requires
        occurs_at(s, pos, t),
        0 <= at,
        at + 3 <= t.len(),
        t[at] == ' ',
        t[at + 1] == op,
        t[at + 2] == ' ',
    ensures
        s[pos + at] == ' ',
        s[pos + at + 1] == op,
        s[pos + at + 2] == ' ',
{
    assert(s[pos + at] == t[at]);
    assert(s[pos + (at + 1)] == t[at + 1]);
    assert(s[pos + (at + 2)] == t[at + 2]);
}

/// The canonical text of a well-formed formula of at most `MAX_DEPTH`
/// levels reads back as that formula.
pub proof fn lemma_render_then_parse(f: Formula)
    requires
        well_formed(f),
        height(f) <= MAX_DEPTH,
    ensures
        parse_text(render_text(f)) == Ok::<Formula, ParseError>(f),
{
    let s = render_text(f);
    lemma_text_starts(f);
    assert(skip_spaces(s, 0) == 0);
    assert(skip_spaces(s, s.len() as int) == s.len());
    lemma_text_reads_back(s, 0, 0, f, MAX_DEPTH as nat);
}

/// Where `s` is the text of `x`, ` | `, the text of `y`, ` & ` and the
/// text of `z`, it reads as the disjunction of `x` with the conjunction of
/// `y` and `z`.
pub proof fn lemma_plain_reads(s: Seq<char>, x: Formula, y: Formula, z: Formula, q1: int, q2: int)
    requires
        well_formed(x),
        well_formed(y),
        well_formed(z),
        height(x) < MAX_DEPTH,
        height(y) + 1 < MAX_DEPTH,
        height(z) + 1 < MAX_DEPTH,
        q1 == render_operand(x).len(),
        q2 == q1 + 3 + render_operand(y).len(),
        s.len() == q2 + 3 + render_operand(z).len(),
        occurs_at(s, 0, render_operand(x)),
        occurs_at(s, q1 + 3, render_operand(y)),
        occurs_at(s, q2 + 3, render_operand(z)),
        s[q1] == ' ' && s[q1 + 1] == '|' && s[q1 + 2] == ' ',
        s[q2] == ' ' && s[q2 + 1] == '&' && s[q2 + 2] == ' ',
    ensures
        parse_text(s) == Ok::<Formula, ParseError>(
            Formula::Or(Box::new(x), Box::new(Formula::And(Box::new(y), Box::new(z)))),
        ),
{
    let both = Formula::And(Box::new(y), Box::new(z));
    let either = Formula::Or(Box::new(x), Box::new(both));
    let a = render_operand(x);
    let b = render_operand(y);
    let c = render_operand(z);
    let depth = MAX_DEPTH as nat;
    let end = s.len() as int;
    lemma_operand_starts(x);
    lemma_operand_starts(y);
    lemma_operand_starts(z);
    assert(s[0int + 0] == a[0]);
    assert(s[q1 + 3 + 0] == b[0]);
    assert(s[q2 + 3 + 0] == c[0]);
    assert(skip_spaces(s, 0) == 0);
    assert(skip_spaces(s, q1 + 3) == q1 + 3);
    assert(skip_spaces(s, q1 + 2) == q1 + 3);
    assert(skip_spaces(s, q1 + 1) == q1 + 1);
    assert(skip_spaces(s, q1) == q1 + 1);
    assert(skip_spaces(s, q2 + 3) == q2 + 3);
    assert(skip_spaces(s, q2 + 2) == q2 + 3);
    assert(skip_spaces(s, q2 + 1) == q2 + 1);
    assert(skip_spaces(s, q2) == q2 + 1);
    assert(skip_spaces(s, end) == end);
    lemma_operand_reads_back(s, 0, 0, x, depth);
    lemma_operand_reads_back(s, q1 + 2, q1 + 3, y, depth);
    lemma_operand_reads_back(s, q2 + 2, q2 + 3, z, depth);
    assert(parse_and_tail(s, x, q1, depth) == Ok::<(Formula, int), ParseError>((x, q1)));
    assert(parse_and(s, 0, depth) == Ok::<(Formula, int), ParseError>((x, q1)));
    assert(parse_and_tail(s, both, end, depth) == Ok::<(Formula, int), ParseError>((both, end)));
    assert(parse_and_tail(s, y, q2, depth) == Ok::<(Formula, int), ParseError>((both, end)));
    assert(parse_and(s, q1 + 2, depth) == Ok::<(Formula, int), ParseError>((both, end)));
    assert(parse_or_tail(s, either, end, depth) == Ok::<(Formula, int), ParseError>(
        (either, end),
    ));
    assert(parse_or_tail(s, x, q1, depth) == Ok::<(Formula, int), ParseError>((either, end)));
    assert(parse_or(s, 0, depth) == Ok::<(Formula, int), ParseError>((either, end)));
}

} // verus!
