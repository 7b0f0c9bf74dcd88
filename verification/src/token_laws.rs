//! What holds of token-set text: names joined by `,` mean the set of
//! those names, in whatever order and however often they stand.

use vstd::prelude::*;
use crate::error::ParseError;
use crate::grammar::is_name_char;
use crate::read_back::{lemma_part, occurs_at};
use crate::tokens::{
    is_member_name, join_names, lemma_members_grow, members, scan_names, token_set,
};

verus! {

/// What the text means after a name that ends at `e`.
pub open spec fn after(s: Seq<char>, e: int) -> Result<Set<Seq<char>>, ParseError> {
    if e >= s.len() {
        Ok(Set::empty())
    } else {
        scan_names(s, e + 1, e + 1)
    }
}

/// Name characters are passed over without a change of meaning.
proof fn lemma_scan_run(s: Seq<char>, start: int, pos: int, e: int)
    requires
        0 <= start <= pos <= e <= s.len(),
        forall|i: int| pos <= i < e ==> is_name_char(#[trigger] s[i]) && s[i] != ',',
    ensures
        scan_names(s, start, pos) == scan_names(s, start, e),
    decreases e - pos,
{
    if pos < e {
        assert(is_name_char(s[pos]) && s[pos] != ',');
        lemma_scan_run(s, start, pos + 1, e);
    }
}

/// A name that stands at `k`, before the end of the text or a `,`, joins
/// what the text means after it.
proof fn lemma_one_name(s: Seq<char>, k: int, n: Seq<char>, rest: Set<Seq<char>>)
    requires
        is_member_name(n),
        occurs_at(s, k, n),
        k + n.len() == s.len() || s[k + n.len()] == ',',
        after(s, k + n.len()) == Ok::<Set<Seq<char>>, ParseError>(rest),
    ensures
        scan_names(s, k, k) == Ok::<Set<Seq<char>>, ParseError>(rest.insert(n)),
{
    let e = k + n.len();
    assert forall|i: int| k <= i < e implies is_name_char(#[trigger] s[i]) && s[i] != ',' by {
        assert(s[k + (i - k)] == n[i - k]);
    }
    lemma_scan_run(s, k, k, e);
    assert(s.subrange(k, e) =~= n) by {
        assert forall|i: int| 0 <= i < n.len() implies s.subrange(k, e)[i] == n[i] by {
            assert(s[k + i] == n[i]);
        }
    }
    if e >= s.len() {
        assert(set![n] =~= rest.insert(n));
    }
}

/// So do names joined by `,`.
proof fn lemma_names_read(s: Seq<char>, k: int, names: Seq<Seq<char>>, rest: Set<Seq<char>>)
    requires
        names.len() > 0,
        forall|i: int| 0 <= i < names.len() ==> is_member_name(#[trigger] names[i]),
        occurs_at(s, k, join_names(names)),
        k + join_names(names).len() == s.len() || s[k + join_names(names).len()] == ',',
        after(s, k + join_names(names).len()) == Ok::<Set<Seq<char>>, ParseError>(rest),
    ensures
        scan_names(s, k, k) == Ok::<Set<Seq<char>>, ParseError>(rest.union(members(names))),
    decreases names.len(),
{
    let init = names.drop_last();
    let last = names.last();
    lemma_members_grow(names);
    assert(is_member_name(last));
    if names.len() == 1 {
        lemma_one_name(s, k, last, rest);
        assert(members(init) =~= Set::<Seq<char>>::empty());
        assert(rest.insert(last) =~= rest.union(members(names)));
    } else {
        let whole = join_names(names);
        let j = join_names(init);
        let m = k + j.len();
        assert(whole == j + seq![','] + last);
        assert(occurs_at(whole, 0, j));
        lemma_part(s, k, whole, 0, j);
        assert(occurs_at(whole, j.len() as int + 1, last));
        lemma_part(s, k, whole, j.len() as int + 1, last);
        assert(whole[j.len() as int] == ',');
        assert(s[k + j.len() as int] == whole[j.len() as int]);
        lemma_one_name(s, m + 1, last, rest);
        assert forall|i: int| 0 <= i < init.len() implies is_member_name(#[trigger] init[i]) by {
            assert(init[i] == names[i]);
        }
        lemma_names_read(s, k, init, rest.insert(last));
        assert(rest.insert(last).union(members(init)) =~= rest.union(members(names)));
    }
}

/// A text of names joined by `,` means the set of those names.
pub proof fn lemma_joined_names_read_back(names: Seq<Seq<char>>)
    requires
        names.len() > 0,
        forall|i: int| 0 <= i < names.len() ==> is_member_name(#[trigger] names[i]),
    ensures
        token_set(join_names(names)) == Ok::<Set<Seq<char>>, ParseError>(members(names)),
{
    let s = join_names(names);
    assert(is_member_name(names.last()));
    assert(s.len() > 0);
    lemma_names_read(s, 0, names, Set::empty());
    assert(Set::<Seq<char>>::empty().union(members(names)) =~= members(names));
}

/// The order of the names in a token-set text and their repetition do not
/// matter: two texts with the same names mean the same set.
pub proof fn lemma_order_and_repeats_are_irrelevant(
    first: Seq<Seq<char>>,
    second: Seq<Seq<char>>,
)
    requires
        first.len() > 0,
        second.len() > 0,
        forall|i: int| 0 <= i < first.len() ==> is_member_name(#[trigger] first[i]),
        forall|i: int| 0 <= i < second.len() ==> is_member_name(#[trigger] second[i]),
        forall|n: Seq<char>| first.contains(n) <==> second.contains(n),
    ensures
        token_set(join_names(first)) == token_set(join_names(second)),
{
    lemma_joined_names_read_back(first);
    lemma_joined_names_read_back(second);
    assert(members(first) =~= members(second));
}

} // verus!
