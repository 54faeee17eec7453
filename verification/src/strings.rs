//! Verified helpers for the dash-token naming convention: splitting a name
//! into tokens, the pluralization rule for container directories, and the
//! escape-marker test.

use vstd::prelude::*;

verus! {

/// A segment is excluded from matching when its name begins with the
/// escape marker `'_'`.
pub open spec fn spec_escaped(s: Seq<char>) -> bool {
    s.len() > 0 && s[0] == '_'
}

/// The pluralized form of a literal token: the fixed "+s" suffix rule.
pub open spec fn spec_plural(s: Seq<char>) -> Seq<char> {
    s.push('s')
}

/// Index of the first occurrence of `sep` in `s`, or `s.len()` when absent.
pub open spec fn spec_find(s: Seq<char>, sep: char) -> int
    decreases s.len(),
{
    if s.len() == 0 {
        0
    } else if s[0] == sep {
        0
    } else {
        1 + spec_find(s.drop_first(), sep)
    }
}

/// The parts of `s` delimited by `sep`, in order. The empty string has one
/// (empty) part, so the result is never empty.
pub open spec fn spec_split(s: Seq<char>, sep: char) -> Seq<Seq<char>>
    decreases s.len(),
{
    let i = spec_find(s, sep);
    if 0 <= i < s.len() {
        seq![s.subrange(0, i)] + spec_split(s.subrange(i + 1, s.len() as int), sep)
    } else {
        seq![s]
    }
}

pub proof fn lemma_find_bounds(s: Seq<char>, sep: char)
    ensures
        0 <= spec_find(s, sep) <= s.len(),
        spec_find(s, sep) < s.len() ==> s[spec_find(s, sep)] == sep,
        forall|j: int| 0 <= j < spec_find(s, sep) ==> s[j] != sep,
    decreases s.len(),
{
    if s.len() > 0 && s[0] != sep {
        lemma_find_bounds(s.drop_first(), sep);
        assert forall|j: int| 0 <= j < spec_find(s, sep) implies s[j] != sep by {
            if j > 0 {
                assert(s.drop_first()[j - 1] != sep);
            }
        }
    }
}

/// A split always yields at least one part.
pub proof fn lemma_split_nonempty(s: Seq<char>, sep: char)
    ensures
        spec_split(s, sep).len() >= 1,
{
    lemma_find_bounds(s, sep);
}

/// When the first `i` characters of `s` hold no separator, the first part of
/// the split is determined by whether `s[i]` is the separator.
proof fn lemma_find_step(s: Seq<char>, sep: char, i: int)
    requires
        0 <= i <= s.len(),
        forall|j: int| 0 <= j < i ==> s[j] != sep,
    ensures
        i < s.len() && s[i] == sep ==> spec_find(s, sep) == i,
        i == s.len() ==> spec_find(s, sep) == s.len(),
    decreases s.len(),
{
    if s.len() > 0 && s[0] != sep && i > 0 {
        lemma_find_step(s.drop_first(), sep, i - 1);
    }
}

/// Unfolds one step of `spec_split` at a known separator position.
pub proof fn lemma_split_at_sep(s: Seq<char>, sep: char, i: int)
    requires
        0 <= i < s.len(),
        s[i] == sep,
        forall|j: int| 0 <= j < i ==> s[j] != sep,
    ensures
        spec_split(s, sep) == seq![s.subrange(0, i)] + spec_split(
            s.subrange(i + 1, s.len() as int),
            sep,
        ),
{
    lemma_find_step(s, sep, i);
}

/// A string without the separator is a single part.
pub proof fn lemma_split_no_sep(s: Seq<char>, sep: char)
    requires
        forall|j: int| 0 <= j < s.len() ==> s[j] != sep,
    ensures
        spec_split(s, sep) == seq![s],
{
    lemma_find_step(s, sep, s.len() as int);
}

/// True when `name` begins with the escape marker `'_'`.
pub fn starts_with_escape(name: &str) -> (r: bool)
    ensures
        r == spec_escaped(name@),
{
    if name.unicode_len() == 0 {
        false
    } else {
        name.get_char(0) == '_'
    }
}

/// Character-by-character string equality, meaning equality of the views.
pub fn str_eq(a: &str, b: &str) -> (r: bool)
    ensures
        r == (a@ == b@),
{
    let alen = a.unicode_len();
    let blen = b.unicode_len();
    if alen != blen {
        return false;
    }
    let mut i: usize = 0;
    while i < alen
        invariant
            alen == a@.len(),
            alen == b@.len(),
            i <= alen,
            forall|j: int| 0 <= j < i ==> a@[j] == b@[j],
        decreases alen - i,
    {
        if a.get_char(i) != b.get_char(i) {
            return false;
        }
        i = i + 1;
    }
    proof {
        assert(a@ =~= b@);
    }
    true
}

/// The pluralized form of a token: the token with `"s"` appended.
pub fn make_plural(s: &str) -> (r: String)
    ensures
        r@ == spec_plural(s@),
{
    let r = s.to_owned().concat("s");
    proof {
        reveal_strlit("s");
        assert(r@ =~= spec_plural(s@));
    }
    r
}

/// Splits `name` on the separator `sep`, never yielding an empty result.
pub fn split_char(name: &str, sep: char) -> (r: Vec<String>)
    ensures
        r.deep_view() == spec_split(name@, sep),
        r.len() >= 1,
{
    let len = name.unicode_len();
    let mut parts: Vec<String> = Vec::new();
    let mut start: usize = 0;
    let mut i: usize = 0;
    proof {
        assert(name@.subrange(0, len as int) =~= name@);
    }
    while i < len
        invariant
            len == name@.len(),
            start <= i <= len,
            forall|j: int| start <= j < i ==> name@[j] != sep,
            spec_split(name@, sep) == parts.deep_view() + spec_split(
                name@.subrange(start as int, len as int),
                sep,
            ),
        decreases len - i,
    {
        if name.get_char(i) == sep {
            let part = name.substring_char(start, i);
            let ghost old_parts = parts.deep_view();
            parts.push(part.to_owned());
            proof {
                let tail = name@.subrange(start as int, len as int);
                lemma_split_at_sep(tail, sep, i - start);
                assert(tail.subrange(0, i - start) =~= name@.subrange(
                    start as int,
                    i as int,
                ));
                assert(tail.subrange(i - start + 1, tail.len() as int) =~= name@.subrange(
                    i + 1,
                    len as int,
                ));
                assert(parts.deep_view() =~= old_parts.push(name@.subrange(
                    start as int,
                    i as int,
                )));
                assert(parts.deep_view() + spec_split(
                    name@.subrange(i + 1, len as int),
                    sep,
                ) =~= old_parts + (seq![name@.subrange(start as int, i as int)] + spec_split(
                    name@.subrange(i + 1, len as int),
                    sep,
                )));
            }
            start = i + 1;
        }
        i = i + 1;
    }
    let last = name.substring_char(start, len);
    let ghost old_parts = parts.deep_view();
    parts.push(last.to_owned());
    proof {
        let tail = name@.subrange(start as int, len as int);
        lemma_split_no_sep(tail, sep);
        assert(parts.deep_view() =~= old_parts.push(tail));
        assert(parts.deep_view() =~= old_parts + seq![tail]);
        assert(spec_split(name@, sep) == parts.deep_view());
    }
    parts
}

} // verus!
