//! Characters in and out of strings.

use vstd::prelude::*;
use vstd::std_specs::iter::IteratorSpec;
use crate::grammar::{is_name_char, is_space};

verus! {

/// `String::push` of the standard library: the string afterwards is the
/// string before with `c` appended. Believed, not proved.
pub assume_specification[ String::push ](s: &mut String, c: char)
    ensures
        final(s)@ == old(s)@.push(c),
;

/// The characters of `text`, in order.
pub fn chars_of(text: &str) -> (v: Vec<char>)
    ensures
        v@ == text@,
{
    broadcast use vstd::string::group_string_axioms;

    let mut it = text.chars();
    let mut v: Vec<char> = Vec::new();
    loop
        invariant
            v@ + it.remaining() == text@,
            it.decrease() is Some,
        decreases it.decrease()->0,
    {
        let ghost before = it.remaining();
        match it.next() {
            Some(c) => {
                v.push(c);
                assert(v@ + it.remaining() =~= text@) by {
                    assert(before =~= seq![c] + before.drop_first());
                }
            },
            None => {
                assert(v@ =~= v@ + it.remaining());
                return v;
            },
        }
    }
}

/// Whether `c` is whitespace: a space, a tab, a line feed or a carriage
/// return.
pub fn space(c: char) -> (b: bool)
    ensures
        b == is_space(c),
{
    c == ' ' || c == '\t' || c == '\n' || c == '\r'
}

/// Whether `c` can stand in a token name.
pub fn name_char(c: char) -> (b: bool)
    ensures
        b == is_name_char(c),
{
    !(c == ' ' || c == '\t' || c == '\n' || c == '\r' || c == '!' || c == '&' || c == '|' || c
        == '(' || c == ')')
}

/// The characters of `text` from `from` up to `to`, as a string.
pub fn slice_string(text: &Vec<char>, from: usize, to: usize) -> (out: String)
    requires
        from <= to <= text.len(),
    ensures
        out@ == text@.subrange(from as int, to as int),
{
    let mut out = String::new();
    let mut i: usize = from;
    while i < to
        invariant
            from <= i <= to <= text.len(),
            out@ == text@.subrange(from as int, i as int),
        decreases to - i,
    {
        out.push(text[i]);
        i += 1;
        assert(out@ =~= text@.subrange(from as int, i as int));
    }
    out
}

} // verus!
