//! Text primitives: literal, case-sensitive substring matching, left-to-right
//! non-overlapping token expansion, and splitting on a separator character.
//! Everything here works on sequences of characters.

use vstd::prelude::*;
use vstd::string::StrSliceExecFns;

verus! {

/// The token occurs in `s` starting exactly at position `i`.
pub open spec fn is_match_at(s: Seq<char>, tok: Seq<char>, i: int) -> bool {
    0 <= i && i + tok.len() <= s.len() && s.subrange(i, i + tok.len() as int) == tok
}

/// The position of the leftmost occurrence of `tok` in `s` at or after
/// `from`, if any. An empty token never matches.
pub open spec fn first_match_from(s: Seq<char>, tok: Seq<char>, from: int) -> Option<int>
    decreases s.len() - from,
{
    if tok.len() == 0 || from < 0 || from + tok.len() > s.len() {
        None
    } else if is_match_at(s, tok, from) {
        Some(from)
    } else {
        first_match_from(s, tok, from + 1)
    }
}

/// The token occurs somewhere in `s`.
pub open spec fn contains_token(s: Seq<char>, tok: Seq<char>) -> bool {
    first_match_from(s, tok, 0) is Some
}

/// How many non-overlapping occurrences of `tok` a left-to-right scan of `s`
/// finds from position `from` on.
pub open spec fn count_from(s: Seq<char>, tok: Seq<char>, from: int) -> nat
    decreases s.len() - from,
{
    if tok.len() == 0 || from < 0 || from + tok.len() > s.len() {
        0
    } else if is_match_at(s, tok, from) {
        1 + count_from(s, tok, from + tok.len() as int)
    } else {
        count_from(s, tok, from + 1)
    }
}

/// The text that a left-to-right scan of `s` from position `from` produces
/// when the k-th occurrence of `tok` found is replaced by `choices[k]`.
pub open spec fn expand_tail(s: Seq<char>, tok: Seq<char>, from: int, choices: Seq<Seq<char>>) -> Seq<char>
    decreases s.len() - from,
{
    if tok.len() == 0 || from < 0 || from >= s.len() {
        if 0 <= from && from <= s.len() {
            s.subrange(from, s.len() as int)
        } else {
            Seq::empty()
        }
    } else if from + tok.len() <= s.len() && is_match_at(s, tok, from) {
        choices.first() + expand_tail(s, tok, from + tok.len() as int, choices.drop_first())
    } else {
        seq![s[from]] + expand_tail(s, tok, from + 1, choices)
    }
}

/// No character of `a` occurs in `b`.
pub open spec fn char_disjoint(a: Seq<char>, b: Seq<char>) -> bool {
    forall|k: int, l: int| #![trigger a[k], b[l]]
        0 <= k < a.len() && 0 <= l < b.len() ==> a[k] != b[l]
}

/// A successful search returns the leftmost occurrence: a match at the found
/// position and none before it.
pub proof fn lemma_first_match_some(s: Seq<char>, tok: Seq<char>, from: int, i: int)
    requires
        tok.len() > 0,
        first_match_from(s, tok, from) == Some(i),
    ensures
        from <= i,
        i + tok.len() <= s.len(),
        is_match_at(s, tok, i),
        forall|q: int| from <= q < i ==> !is_match_at(s, tok, q),
    decreases s.len() - from,
{
    if tok.len() == 0 || from < 0 || from + tok.len() > s.len() {
        assert(false);
    } else if is_match_at(s, tok, from) {
    } else {
        lemma_first_match_some(s, tok, from + 1, i);
    }
}

/// A failed search means no position at or after `from` carries a match.
pub proof fn lemma_first_match_none(s: Seq<char>, tok: Seq<char>, from: int, q: int)
    requires
        tok.len() > 0,
        0 <= from,
        first_match_from(s, tok, from) is None,
        from <= q,
    ensures
        !is_match_at(s, tok, q),
    decreases q - from,
{
    if from + tok.len() > s.len() {
    } else if q == from {
    } else {
        lemma_first_match_none(s, tok, from + 1, q);
    }
}

/// Expansion from `from` first copies the text up to the leftmost match,
/// then substitutes the first choice, then goes on after the match; the
/// occurrence count steps down accordingly.
pub proof fn lemma_expand_jump(s: Seq<char>, tok: Seq<char>, from: int, i: int, choices: Seq<Seq<char>>)
    requires
        tok.len() > 0,
        0 <= from,
        first_match_from(s, tok, from) == Some(i),
    ensures
        count_from(s, tok, from) == 1 + count_from(s, tok, i + tok.len() as int),
        expand_tail(s, tok, from, choices) == s.subrange(from, i) + choices.first()
            + expand_tail(s, tok, i + tok.len() as int, choices.drop_first()),
    decreases s.len() - from,
{
    lemma_first_match_some(s, tok, from, i);
    if i == from {
        assert(s.subrange(from, i) =~= Seq::<char>::empty());
        assert(s.subrange(from, i) + choices.first()
            + expand_tail(s, tok, i + tok.len() as int, choices.drop_first())
            =~= choices.first() + expand_tail(s, tok, i + tok.len() as int, choices.drop_first()));
    } else {
        lemma_expand_jump(s, tok, from + 1, i, choices);
        assert(s.subrange(from, i) =~= seq![s[from]] + s.subrange(from + 1, i));
        assert(seq![s[from]] + (s.subrange(from + 1, i) + choices.first()
            + expand_tail(s, tok, i + tok.len() as int, choices.drop_first()))
            =~= s.subrange(from, i) + choices.first()
            + expand_tail(s, tok, i + tok.len() as int, choices.drop_first()));
    }
}

/// Where no match remains, expansion copies the rest of the text unchanged
/// and the occurrence count is zero.
pub proof fn lemma_no_match_rest(s: Seq<char>, tok: Seq<char>, from: int, choices: Seq<Seq<char>>)
    requires
        tok.len() > 0,
        0 <= from <= s.len(),
        first_match_from(s, tok, from) is None,
    ensures
        count_from(s, tok, from) == 0,
        expand_tail(s, tok, from, choices) == s.subrange(from, s.len() as int),
    decreases s.len() - from,
{
    if from >= s.len() {
    } else {
        lemma_no_match_rest(s, tok, from + 1, choices);
        assert(s.subrange(from, s.len() as int)
            =~= seq![s[from]] + s.subrange(from + 1, s.len() as int));
    }
}

/// A text without occurrences of the token expands to itself, whatever the
/// choices.
pub proof fn lemma_count_zero_identity(s: Seq<char>, tok: Seq<char>, from: int, choices: Seq<Seq<char>>)
    requires
        tok.len() > 0,
        0 <= from <= s.len(),
        count_from(s, tok, from) == 0,
    ensures
        first_match_from(s, tok, from) is None,
        expand_tail(s, tok, from, choices) == s.subrange(from, s.len() as int),
    decreases s.len() - from,
{
    if from + tok.len() > s.len() {
        if from < s.len() {
            lemma_count_zero_identity(s, tok, from + 1, choices);
            assert(s.subrange(from, s.len() as int)
                =~= seq![s[from]] + s.subrange(from + 1, s.len() as int));
        }
    } else if is_match_at(s, tok, from) {
        assert(false);
    } else {
        lemma_count_zero_identity(s, tok, from + 1, choices);
        assert(s.subrange(from, s.len() as int)
            =~= seq![s[from]] + s.subrange(from + 1, s.len() as int));
    }
}

/// The token occurs in `s` starting exactly at `i` (runs the comparison).
fn match_at(s: &Vec<char>, tok: &Vec<char>, i: usize) -> (r: bool)
    requires
        i + tok@.len() <= s@.len(),
    ensures
        r == is_match_at(s@, tok@, i as int),
{
    let n = s.len();
    let mut j: usize = 0;
    while j < tok.len()
        invariant
            n == s@.len(),
            i + tok@.len() <= s@.len(),
            j <= tok@.len(),
            forall|k: int| 0 <= k < j ==> s@[i + k] == tok@[k],
        decreases tok@.len() - j,
    {
        assert(i + j < n);
        if s[i + j] != tok[j] {
            proof {
                if is_match_at(s@, tok@, i as int) {
                    assert(s@.subrange(i as int, i + tok@.len() as int)[j as int] == s@[i + j]);
                }
            }
            return false;
        }
        j += 1;
    }
    proof {
        assert(s@.subrange(i as int, i + tok@.len() as int) =~= tok@);
    }
    true
}

/// The leftmost occurrence of `tok` in `s` at or after `from`, if any.
pub fn find_from(s: &Vec<char>, tok: &Vec<char>, from: usize) -> (r: Option<usize>)
    requires
        tok@.len() > 0,
        from <= s@.len(),
    ensures
        match r {
            Some(i) => from <= i && i + tok@.len() <= s@.len() && is_match_at(s@, tok@, i as int)
                && first_match_from(s@, tok@, from as int) == Some(i as int),
            None => first_match_from(s@, tok@, from as int) is None,
        },
{
    if tok.len() > s.len() {
        return None;
    }
    let bound: usize = s.len() - tok.len();
    if from > bound {
        return None;
    }
    let mut p: usize = from;
    loop
        invariant
            tok@.len() > 0,
            tok@.len() <= s@.len(),
            bound == s@.len() - tok@.len(),
            from <= p <= bound,
            first_match_from(s@, tok@, from as int) == first_match_from(s@, tok@, p as int),
        decreases bound - p,
    {
        if match_at(s, tok, p) {
            assert(first_match_from(s@, tok@, p as int) == Some(p as int));
            return Some(p);
        }
        assert(first_match_from(s@, tok@, p as int) == first_match_from(s@, tok@, p + 1));
        if p == bound {
            assert(first_match_from(s@, tok@, p + 1) is None);
            return None;
        }
        p += 1;
    }
}

/// Whether the token occurs anywhere in the text.
pub fn contains_chars(s: &Vec<char>, tok: &Vec<char>) -> (r: bool)
    requires
        tok@.len() > 0,
    ensures
        r == contains_token(s@, tok@),
{
    match find_from(s, tok, 0) {
        Some(_) => true,
        None => false,
    }
}

/// Appends `src[a..b]` to `out`.
pub fn push_range(out: &mut Vec<char>, src: &Vec<char>, a: usize, b: usize)
    requires
        a <= b <= src@.len(),
    ensures
        final(out)@ == old(out)@ + src@.subrange(a as int, b as int),
{
    let mut k: usize = a;
    while k < b
        invariant
            a <= k <= b <= src@.len(),
            out@ == old(out)@ + src@.subrange(a as int, k as int),
        decreases b - k,
    {
        out.push(src[k]);
        proof {
            assert(old(out)@ + src@.subrange(a as int, k + 1)
                =~= (old(out)@ + src@.subrange(a as int, k as int)).push(src@[k as int]));
        }
        k += 1;
    }
}

/// The characters of a string slice, in order.
pub fn str_to_chars(s: &str) -> (r: Vec<char>)
    ensures
        r@ == s@,
{
    let n = s.unicode_len();
    let mut r: Vec<char> = Vec::new();
    let mut i: usize = 0;
    while i < n
        invariant
            n == s@.len(),
            i <= n,
            r@ == s@.take(i as int),
        decreases n - i,
    {
        let c = s.get_char(i);
        r.push(c);
        proof {
            assert(s@.take(i + 1) =~= s@.take(i as int).push(s@[i as int]));
        }
        i += 1;
    }
    proof {
        assert(s@.take(n as int) =~= s@);
    }
    r
}

/// Relies on std's `FromIterator` for `String`: collecting characters yields
/// the string of exactly those characters, in order.
#[verifier::external_body]
pub fn chars_to_string(v: &Vec<char>) -> (r: String)
    ensures
        r@ == v@,
{
    v.iter().collect()
}

/// The pieces of `s` between occurrences of the separator character, in
/// order. Leading, trailing and consecutive separators produce empty pieces;
/// the empty text yields one empty piece.
pub open spec fn split_on(s: Seq<char>, sep: char) -> Seq<Seq<char>>
    decreases s.len(),
{
    if s.len() == 0 {
        seq![Seq::<char>::empty()]
    } else if s.last() == sep {
        split_on(s.drop_last(), sep).push(Seq::empty())
    } else {
        let p = split_on(s.drop_last(), sep);
        p.update(p.len() - 1, p.last().push(s.last()))
    }
}

/// A split always yields at least one piece.
pub proof fn lemma_split_on_len(s: Seq<char>, sep: char)
    ensures
        split_on(s, sep).len() >= 1,
    decreases s.len(),
{
    if s.len() != 0 {
        lemma_split_on_len(s.drop_last(), sep);
    }
}

/// Splits a text on a separator character.
pub fn split_chars(s: &Vec<char>, sep: char) -> (r: Vec<Vec<char>>)
    ensures
        r.deep_view() == split_on(s@, sep),
        r@.len() >= 1,
{
    let mut out: Vec<Vec<char>> = Vec::new();
    let mut cur: Vec<char> = Vec::new();
    let mut i: usize = 0;
    proof {
        assert(s@.take(0) =~= Seq::<char>::empty());
        assert(out.deep_view().push(cur@) =~~= split_on(s@.take(0), sep));
    }
    while i < s.len()
        invariant
            i <= s@.len(),
            out.deep_view().push(cur@) == split_on(s@.take(i as int), sep),
        decreases s@.len() - i,
    {
        let ghost pre = s@.take(i as int);
        let ghost opre = out.deep_view();
        let ghost cpre = cur@;
        if s[i] == sep {
            out.push(cur);
            cur = Vec::new();
            proof {
                assert(out.deep_view() =~~= opre.push(cpre));
            }
        } else {
            cur.push(s[i]);
        }
        proof {
            assert(s@.take(i + 1).drop_last() =~= pre);
            assert(s@.take(i + 1).last() == s@[i as int]);
            if s@[i as int] == sep {
                assert(split_on(s@.take(i + 1), sep) == split_on(pre, sep).push(Seq::<char>::empty()));
                assert(out.deep_view().push(cur@) =~~= split_on(pre, sep).push(Seq::<char>::empty()));
            } else {
                let p = split_on(pre, sep);
                assert(split_on(s@.take(i + 1), sep)
                    == p.update(p.len() - 1, p.last().push(s@[i as int])));
                assert(p == opre.push(cpre));
                assert(p.last() == cpre);
                assert(out.deep_view().push(cur@)
                    =~~= p.update(p.len() - 1, p.last().push(s@[i as int])));
            }
        }
        i += 1;
    }
    proof {
        assert(s@.take(s@.len() as int) =~= s@);
    }
    let ghost ofin = out.deep_view();
    let ghost cfin = cur@;
    out.push(cur);
    proof {
        assert(out.deep_view() =~~= ofin.push(cfin));
        lemma_split_on_len(s@, sep);
    }
    out
}

/// The texts of a list of strings, each as its characters.
pub fn chars_of_strings(v: &Vec<String>) -> (r: Vec<Vec<char>>)
    ensures
        r.deep_view() == v.deep_view(),
        r@.len() == v@.len(),
{
    let mut r: Vec<Vec<char>> = Vec::new();
    let mut i: usize = 0;
    while i < v.len()
        invariant
            i <= v@.len(),
            r@.len() == i,
            forall|k: int| 0 <= k < i ==> r.deep_view()[k] == v.deep_view()[k],
        decreases v@.len() - i,
    {
        let cs = str_to_chars(v[i].as_str());
        r.push(cs);
        i += 1;
    }
    proof {
        assert(r.deep_view() =~~= v.deep_view());
    }
    r
}

/// The strings of a list of texts, one for each.
pub fn strings_of_chars(v: &Vec<Vec<char>>) -> (r: Vec<String>)
    ensures
        r.deep_view() == v.deep_view(),
        r@.len() == v@.len(),
{
    let mut r: Vec<String> = Vec::new();
    let mut i: usize = 0;
    while i < v.len()
        invariant
            i <= v@.len(),
            r@.len() == i,
            forall|k: int| 0 <= k < i ==> r.deep_view()[k] == v.deep_view()[k],
        decreases v@.len() - i,
    {
        let s = chars_to_string(&v[i]);
        r.push(s);
        i += 1;
    }
    proof {
        assert(r.deep_view() =~~= v.deep_view());
    }
    r
}

} // verus!
