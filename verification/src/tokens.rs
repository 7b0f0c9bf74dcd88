//! The set of tokens that a requester presents.

use vstd::prelude::*;
use vstd::string::StringExecFns;
use crate::error::ParseError;
use crate::grammar::{is_name, is_name_char};
use crate::token_laws::lemma_joined_names_read_back;
use crate::text::{chars_of, name_char, slice_string};

verus! {

/// What the token-set text `s` means from `pos` on, where the current name
/// began at `start`: names are separated by `,`, and each is a non-empty
/// run of name characters.
pub open spec fn scan_names(s: Seq<char>, start: int, pos: int) -> Result<
    Set<Seq<char>>,
    ParseError,
>
    decreases s.len() - pos,
{
    if !(0 <= pos < s.len()) {
        if pos == start {
            Err(ParseError::EmptyTokenName)
        } else {
            Ok(set![s.subrange(start, pos)])
        }
    } else if s[pos] == ',' {
        if pos == start {
            Err(ParseError::EmptyTokenName)
        } else {
            match scan_names(s, pos + 1, pos + 1) {
                Ok(rest) => Ok(rest.insert(s.subrange(start, pos))),
                Err(e) => Err(e),
            }
        }
    } else if is_name_char(s[pos]) {
        scan_names(s, start, pos + 1)
    } else {
        Err(ParseError::UnexpectedCharacter(pos as usize))
    }
}

/// What a whole token-set text means. The empty text is the empty set.
pub open spec fn token_set(s: Seq<char>) -> Result<Set<Seq<char>>, ParseError> {
    if s.len() == 0 {
        Ok(Set::empty())
    } else {
        scan_names(s, 0, 0)
    }
}

/// The names of `names`, joined by `,`.
pub open spec fn join_names(names: Seq<Seq<char>>) -> Seq<char>
    decreases names.len(),
{
    if names.len() == 0 {
        Seq::empty()
    } else if names.len() == 1 {
        names[0]
    } else {
        join_names(names.drop_last()) + seq![','] + names.last()
    }
}

/// A name that a token-set text can hold: a name of the grammar without `,`.
pub open spec fn is_member_name(n: Seq<char>) -> bool {
    is_name(n) && forall|i: int| 0 <= i < n.len() ==> #[trigger] n[i] != ','
}

/// The set of the names in `names`.
pub open spec fn members(names: Seq<Seq<char>>) -> Set<Seq<char>> {
    Set::new(|n: Seq<char>| names.contains(n))
}

/// No name stands twice in `names`.
pub open spec fn all_distinct(names: Seq<Seq<char>>) -> bool {
    forall|i: int, j: int| 0 <= i < j < names.len() ==> names[i] != names[j]
}

/// What the strings of `v` hold, in order.
pub open spec fn names_of(v: Seq<String>) -> Seq<Seq<char>> {
    Seq::new(v.len(), |i: int| v[i]@)
}

/// The names of a list are those of the list without its last name, and
/// the last.
pub proof fn lemma_members_grow(names: Seq<Seq<char>>)
    requires
        names.len() > 0,
    ensures
        members(names) =~= members(names.drop_last()).insert(names.last()),
{
    let init = names.drop_last();
    let last = names.last();
    assert forall|n: Seq<char>|
        members(names).contains(n) == members(init).insert(last).contains(n) by {
        if names.contains(n) {
            let i = choose|i: int| 0 <= i < names.len() && names[i] == n;
            if i < init.len() {
                assert(init[i] == n);
            }
        }
        if init.contains(n) {
            let i = choose|i: int| 0 <= i < init.len() && init[i] == n;
            assert(names[i] == n);
        }
        if n == last {
            assert(names[names.len() - 1] == n);
        }
    }
}

fn holds_name(names: &Vec<String>, name: &String) -> (b: bool)
    ensures
        b == names_of(names@).contains(name@),
{
    let mut i: usize = 0;
    while i < names.len()
        invariant
            i <= names.len(),
            forall|k: int| 0 <= k < i ==> names_of(names@)[k] != name@,
        decreases names.len() - i,
    {
        if names[i] == *name {
            assert(names_of(names@)[i as int] == name@);
            return true;
        }
        i += 1;
    }
    false
}

/// A set of token names, read from text and never changed afterwards. It
/// keeps each name once, in the order in which the names first came.
#[derive(Debug)]
pub struct AccessTokens {
    names: Vec<String>,
}

impl View for AccessTokens {
    type V = Set<Seq<char>>;

    open spec fn view(&self) -> Set<Seq<char>> {
        members(self.listing())
    }
}

impl AccessTokens {
    #[verifier::type_invariant]
    spec fn kept(&self) -> bool {
        &&& all_distinct(names_of(self.names@))
        &&& forall|i: int|
            0 <= i < self.names@.len() ==> is_member_name(#[trigger] names_of(self.names@)[i])
    }

    /// The names held, in the order in which they are kept.
    pub closed spec fn listing(&self) -> Seq<Seq<char>> {
        names_of(self.names@)
    }

    /// No name is kept twice.
    pub open spec fn distinct(&self) -> bool {
        all_distinct(self.listing())
    }

    /// Whether `name` is a member.
    pub fn contains(&self, name: &String) -> (b: bool)
        ensures
            b == self@.contains(name@),
    {
        holds_name(&self.names, name)
    }

    /// Whether every member of `self` is a member of `other`.
    pub fn is_subset(&self, other: &AccessTokens) -> (b: bool)
        ensures
            b == self@.subset_of(other@),
    {
        let mut i: usize = 0;
        while i < self.names.len()
            invariant
                i <= self.names.len(),
                forall|k: int| 0 <= k < i ==> other@.contains(self.listing()[k]),
            decreases self.names.len() - i,
        {
            if !other.contains(&self.names[i]) {
                assert(self@.contains(self.listing()[i as int]));
                return false;
            }
            i += 1;
        }
        true
    }

    /// The names held, each once, in the order in which they are kept.
    pub fn to_names(&self) -> (v: Vec<String>)
        ensures
            names_of(v@) == self.listing(),
    {
        let mut v: Vec<String> = Vec::new();
        let mut i: usize = 0;
        while i < self.names.len()
            invariant
                i <= self.names.len(),
                v@.len() == i,
                names_of(v@) == self.listing().take(i as int),
            decreases self.names.len() - i,
        {
            let ghost before = names_of(v@);
            let name = self.names[i].clone();
            assert(name@ == self.listing()[i as int]);
            v.push(name);
            i += 1;
            assert forall|k: int| 0 <= k < i implies names_of(v@)[k] == self.listing().take(
                i as int,
            )[k] by {
                if k < i - 1 {
                    assert(names_of(v@)[k] == before[k]);
                }
            }
            assert(names_of(v@) =~= self.listing().take(i as int));
        }
        assert(self.listing().take(i as int) =~= self.listing());
        v
    }

    /// How many names the set holds.
    pub fn len(&self) -> (n: usize)
        ensures
            n == self.listing().len(),
            self@.finite(),
            n == self@.len(),
    {
        proof {
            use_type_invariant(self);
            assert(self.listing().no_duplicates());
            self.listing().unique_seq_to_set();
            assert(self@ =~= self.listing().to_set());
        }
        self.names.len()
    }

    /// The names joined by `,`, in the order in which they are kept: a text
    /// that reads back as this set.
    pub fn output(&self) -> (out: String)
        ensures
            out@ == join_names(self.listing()),
            token_set(out@) == Ok::<Set<Seq<char>>, ParseError>(self@),
    {
        proof {
            use_type_invariant(self);
            if self.listing().len() > 0 {
                lemma_joined_names_read_back(self.listing());
            } else {
                assert(self@ =~= Set::<Seq<char>>::empty());
            }
        }
        let mut out = String::new();
        let mut i: usize = 0;
        while i < self.names.len()
            invariant
                i <= self.names.len(),
                out@ == join_names(self.listing().take(i as int)),
            decreases self.names.len() - i,
        {
            if i > 0 {
                out.push(',');
            }
            out.append(self.names[i].as_str());
            i += 1;
            proof {
                let now = self.listing().take(i as int);
                assert(now.drop_last() =~= self.listing().take(i - 1));
                assert(now.last() == self.names@[i - 1]@);
                assert(out@ =~= join_names(now));
            }
        }
        assert(self.listing().take(i as int) =~= self.listing());
        out
    }

    /// Reads a token-set text, as `parse_tokens` does.
    pub fn input(text: &str) -> (res: Result<AccessTokens, ParseError>)
        ensures
            reads_as(res, token_set(text@)),
    {
        parse_tokens(text)
    }
}

impl PartialEq for AccessTokens {
    /// Two sets are equal when they have the same members.
    fn eq(&self, other: &AccessTokens) -> (b: bool) {
        let b = self.is_subset(other) && other.is_subset(self);
        proof {
            if b {
                assert(self@ =~= other@);
            }
        }
        b
    }
}

impl vstd::std_specs::cmp::PartialEqSpecImpl for AccessTokens {
    open spec fn obeys_eq_spec() -> bool {
        true
    }

    open spec fn eq_spec(&self, other: &AccessTokens) -> bool {
        self@ == other@
    }
}

impl Eq for AccessTokens {

}

impl std::hash::Hash for AccessTokens {
    /// Feeds the number of names to `Hasher::write_usize` of the standard
    /// library, and nothing else: sets that are equal keep equally many
    /// names, in whatever order, so they hash alike. Nothing is claimed of
    /// what the hasher makes of it.
    #[verifier::external_body]
    fn hash<H: std::hash::Hasher>(&self, state: &mut H) {
        state.write_usize(self.names.len());
    }
}

/// `res` is what the meaning `meant` of a token-set text asks for: the set
/// with exactly the names meant, or the same error.
pub open spec fn reads_as(
    res: Result<AccessTokens, ParseError>,
    meant: Result<Set<Seq<char>>, ParseError>,
) -> bool {
    match meant {
        Ok(names) => res is Ok && res->Ok_0@ == names && res->Ok_0.distinct(),
        Err(e) => res is Err && res->Err_0 == e,
    }
}

/// `acc` together with what is still to come.
pub open spec fn joined(acc: Set<Seq<char>>, rest: Result<Set<Seq<char>>, ParseError>) -> Result<
    Set<Seq<char>>,
    ParseError,
> {
    match rest {
        Ok(more) => Ok(acc.union(more)),
        Err(e) => Err(e),
    }
}

/// Reads a token-set text: names separated by `,`. The empty text is the
/// empty set; a name given twice counts once; the order of the names does
/// not matter. An empty name is answered by `EmptyTokenName`, whitespace or
/// one of `! & | ( )` by `UnexpectedCharacter` with its position, whichever
/// comes first in the text.
pub fn parse_tokens(text: &str) -> (res: Result<AccessTokens, ParseError>)
    ensures
        reads_as(res, token_set(text@)),
{
    let chars = chars_of(text);
    let mut names: Vec<String> = Vec::new();
    if chars.len() == 0 {
        assert(members(names_of(names@)) =~= Set::<Seq<char>>::empty());
        return Ok(AccessTokens { names });
    }
    let mut start: usize = 0;
    let mut pos: usize = 0;
    proof {
        match scan_names(text@, 0, 0) {
            Ok(all) => {
                assert(members(names_of(names@)).union(all) =~= all);
            },
            Err(_) => {},
        }
    }
    while pos < chars.len()
        invariant
            chars@ == text@,
            start <= pos <= chars.len(),
            all_distinct(names_of(names@)),
            forall|i: int| 0 <= i < names@.len() ==> is_member_name(#[trigger] names_of(names@)[i]),
            forall|i: int| start <= i < pos ==> is_name_char(#[trigger] text@[i]) && text@[i] != ',',
            token_set(text@) == joined(
                members(names_of(names@)),
                scan_names(text@, start as int, pos as int),
            ),
        decreases chars.len() - pos,
    {
        let c = chars[pos];
        if c == ',' {
            if pos == start {
                return Err(ParseError::EmptyTokenName);
            }
            let ghost before = members(names_of(names@));
            keep(&mut names, &chars, start, pos);
            proof {
                match scan_names(text@, pos + 1, pos + 1) {
                    Ok(rest) => {
                        let name = text@.subrange(start as int, pos as int);
                        assert(before.union(rest.insert(name)) =~= members(
                            names_of(names@),
                        ).union(rest));
                    },
                    Err(_) => {},
                }
            }
            start = pos + 1;
        } else if !name_char(c) {
            return Err(ParseError::UnexpectedCharacter(pos));
        }
        pos += 1;
    }
    if pos == start {
        return Err(ParseError::EmptyTokenName);
    }
    let ghost before = members(names_of(names@));
    keep(&mut names, &chars, start, pos);
    assert(before.union(set![text@.subrange(start as int, pos as int)]) =~= members(
        names_of(names@),
    ));
    Ok(AccessTokens { names })
}

/// Adds the name that stands in `text` from `from` up to `to`, unless
/// `names` holds it already.
fn keep(names: &mut Vec<String>, text: &Vec<char>, from: usize, to: usize)
    requires
        from < to <= text.len(),
        all_distinct(names_of(old(names)@)),
        forall|i: int|
            0 <= i < old(names)@.len() ==> is_member_name(#[trigger] names_of(old(names)@)[i]),
        forall|i: int| from <= i < to ==> is_name_char(#[trigger] text@[i]) && text@[i] != ',',
    ensures
        all_distinct(names_of(final(names)@)),
        forall|i: int|
            0 <= i < final(names)@.len() ==> is_member_name(
                #[trigger] names_of(final(names)@)[i],
            ),
        members(names_of(final(names)@)) == members(names_of(old(names)@)).insert(
            text@.subrange(from as int, to as int),
        ),
{
    let name = slice_string(text, from, to);
    let ghost before = names_of(names@);
    assert(is_member_name(name@));
    if !holds_name(names, &name) {
        names.push(name);
        let ghost now = names_of(names@);
        assert(now.drop_last() =~= before);
        assert(now.last() == name@);
        proof {
            lemma_members_grow(now);
        }
        assert forall|i: int| 0 <= i < now.len() implies is_member_name(#[trigger] now[i]) by {
            if i < before.len() {
                assert(now[i] == before[i]);
            }
        }
        assert forall|i: int, j: int| 0 <= i < j < now.len() implies now[i] != now[j] by {
            assert(now[i] == before[i]);
            if j < before.len() {
                assert(now[j] == before[j]);
            }
        }
    } else {
        assert(members(before).insert(name@) =~= members(before));
    }
}

} // verus!
