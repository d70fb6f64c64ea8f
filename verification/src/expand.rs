//! The template expander: one pass per placeholder token, replacing every
//! non-overlapping occurrence, left to right, by an independently random
//! choice from the token's option list.

use vstd::prelude::*;

use crate::text::{
    contains_token, count_from, char_disjoint, expand_tail, find_from, first_match_from,
    is_match_at, lemma_count_zero_identity, lemma_expand_jump, lemma_first_match_none,
    lemma_first_match_some, lemma_no_match_rest, push_range, str_to_chars, chars_to_string,
    chars_of_strings,
};
use crate::rng::rng_below;
use crate::MommyError;

verus! {

/// `out` is a possible result of one expansion pass over `input`: each of
/// the occurrences of `tok` found by a left-to-right, non-overlapping scan
/// has been replaced by some element of `opts`, independently per
/// occurrence.
pub open spec fn is_expansion_of(out: Seq<char>, input: Seq<char>, tok: Seq<char>, opts: Seq<Seq<char>>) -> bool {
    exists|choices: Seq<Seq<char>>|
        (#[trigger] expand_tail(input, tok, 0, choices)) == out
        && choices.len() == count_from(input, tok, 0)
        && (forall|j: int| 0 <= j < choices.len() ==> opts.contains(#[trigger] choices[j]))
}

/// One expansion pass over a text held as characters.
pub(crate) fn apply_template_chars(
    input: &Vec<char>,
    tok: &Vec<char>,
    options: &Vec<Vec<char>>,
    rng: &mut rand::rngs::StdRng,
) -> (r: Vec<char>)
    requires
        tok@.len() > 0,
        options@.len() > 0,
    ensures
        is_expansion_of(r@, input@, tok@, options.deep_view()),
        count_from(input@, tok@, 0) == 0 ==> r@ == input@,
{
    let ghost s = input@;
    let ghost t = tok@;
    let ghost opts = options.deep_view();
    let n = input.len();
    let mut out: Vec<char> = Vec::new();
    let mut pos: usize = 0;
    let ghost mut done: Seq<Seq<char>> = Seq::empty();
    proof {
        assert forall|rest: Seq<Seq<char>>|
            expand_tail(s, t, 0, done + rest) == out@ + #[trigger] expand_tail(s, t, 0, rest)
        by {
            assert(done + rest =~= rest);
            assert(out@ + expand_tail(s, t, 0, rest) =~= expand_tail(s, t, 0, rest));
        }
    }
    loop
        invariant
            s == input@,
            t == tok@,
            opts == options.deep_view(),
            t.len() > 0,
            options@.len() > 0,
            n == s.len(),
            pos <= s.len(),
            count_from(s, t, 0) == done.len() + count_from(s, t, pos as int),
            forall|j: int| 0 <= j < done.len() ==> opts.contains(#[trigger] done[j]),
            forall|rest: Seq<Seq<char>>|
                expand_tail(s, t, 0, done + rest) == out@ + #[trigger] expand_tail(
                    s,
                    t,
                    pos as int,
                    rest,
                ),
        decreases s.len() - pos,
    {
        match find_from(input, tok, pos) {
            Some(i) => {
                let ghost out0 = out@;
                let ghost pos0 = pos as int;
                push_range(&mut out, input, pos, i);
                let c = rng_below(rng, options.len());
                let opt = &options[c];
                push_range(&mut out, opt, 0, opt.len());
                let ghost ch = options@[c as int]@;
                proof {
                    assert(opt@.subrange(0, opt@.len() as int) =~= ch);
                    assert(opts[c as int] =~= ch);
                    assert(opts.contains(ch));
                    lemma_expand_jump(s, t, pos0, i as int, Seq::empty());
                    assert forall|rest: Seq<Seq<char>>|
                        expand_tail(s, t, 0, done.push(ch) + rest) == out@ + #[trigger] expand_tail(
                            s,
                            t,
                            i as int + t.len() as int,
                            rest,
                        )
                    by {
                        let r1 = seq![ch] + rest;
                        assert(done.push(ch) + rest =~= done + r1);
                        assert(expand_tail(s, t, 0, done + r1) == out0 + expand_tail(s, t, pos0, r1));
                        lemma_expand_jump(s, t, pos0, i as int, r1);
                        assert(r1.first() == ch);
                        assert(r1.drop_first() =~= rest);
                        assert(out0 + (s.subrange(pos0, i as int) + ch + expand_tail(
                            s,
                            t,
                            i as int + t.len() as int,
                            rest,
                        )) =~= out@ + expand_tail(s, t, i as int + t.len() as int, rest));
                    }
                    done = done.push(ch);
                }
                assert(i as int + tok@.len() <= n as int);
                pos = i + tok.len();
            },
            None => {
                let ghost out0 = out@;
                push_range(&mut out, input, pos, input.len());
                proof {
                    lemma_no_match_rest(s, t, pos as int, Seq::empty());
                    assert(done + Seq::<Seq<char>>::empty() =~= done);
                    assert(expand_tail(s, t, 0, done + Seq::<Seq<char>>::empty()) == out0
                        + expand_tail(s, t, pos as int, Seq::<Seq<char>>::empty()));
                    assert(out@ == expand_tail(s, t, 0, done));
                    assert(done.len() == count_from(s, t, 0));
                    assert(is_expansion_of(out@, s, t, opts));
                    if count_from(s, t, 0) == 0 {
                        lemma_count_zero_identity(s, t, 0, done);
                        assert(s.subrange(0, s.len() as int) =~= s);
                    }
                }
                return out;
            },
        }
    }
}

/// One expansion pass over a string template. The option list must not be
/// empty; an empty one is reported, never drawn from.
pub fn apply_template(
    input: &str,
    template_key: &str,
    options: &Vec<String>,
    rng: &mut rand::rngs::StdRng,
) -> (r: Result<String, MommyError>)
    requires
        template_key@.len() > 0,
    ensures
        r is Ok <==> options@.len() > 0,
        r matches Err(e) ==> e == MommyError::EmptyOptionList,
        r matches Ok(out) ==> is_expansion_of(out@, input@, template_key@, options.deep_view()),
        count_from(input@, template_key@, 0) == 0 ==> (r matches Ok(out) ==> out@ == input@),
{
    if options.len() == 0 {
        return Err(MommyError::EmptyOptionList);
    }
    let input_chars = str_to_chars(input);
    let tok_chars = str_to_chars(template_key);
    let option_chars = chars_of_strings(options);
    let expanded = apply_template_chars(&input_chars, &tok_chars, &option_chars, rng);
    let out = chars_to_string(&expanded);
    Ok(out)
}

/// Replacing the found occurrences of a token can leave no occurrence
/// behind, as long as no substituted text can take part in a new one: every
/// option non-empty and sharing no character with the token. (An expansion
/// as such replaces the counted occurrences by elements of the option list;
/// that is `is_expansion_of` itself.)
pub proof fn lemma_expansion_removes_token(out: Seq<char>, input: Seq<char>, tok: Seq<char>, opts: Seq<Seq<char>>)
    requires
        tok.len() > 0,
        is_expansion_of(out, input, tok, opts),
        forall|j: int| 0 <= j < opts.len() ==> (#[trigger] opts[j]).len() > 0 && char_disjoint(opts[j], tok),
    ensures
        !contains_token(out, tok),
{
    let choices = choose|choices: Seq<Seq<char>>|
        (#[trigger] expand_tail(input, tok, 0, choices)) == out
        && choices.len() == count_from(input, tok, 0)
        && (forall|j: int| 0 <= j < choices.len() ==> opts.contains(#[trigger] choices[j]));
    assert forall|j: int| 0 <= j < choices.len() implies (#[trigger] choices[j]).len() > 0
        && char_disjoint(choices[j], tok)
    by {
        assert(opts.contains(choices[j]));
        let k = choose|k: int| 0 <= k < opts.len() && opts[k] == choices[j];
        assert(opts[k].len() > 0 && char_disjoint(opts[k], tok));
    }
    if contains_token(out, tok) {
        let p = first_match_from(out, tok, 0)->Some_0;
        lemma_first_match_some(out, tok, 0, p);
        lemma_expand_no_token(input, tok, 0, choices, p);
    }
}

/// No occurrence of the token survives an expansion whose choices are all
/// non-empty and share no character with the token.
proof fn lemma_expand_no_token(s: Seq<char>, tok: Seq<char>, from: int, choices: Seq<Seq<char>>, p: int)
    requires
        tok.len() > 0,
        0 <= from <= s.len(),
        choices.len() == count_from(s, tok, from),
        forall|j: int| 0 <= j < choices.len() ==> (#[trigger] choices[j]).len() > 0
            && char_disjoint(choices[j], tok),
    ensures
        !is_match_at(expand_tail(s, tok, from, choices), tok, p),
    decreases s.len() - from,
{
    let e = expand_tail(s, tok, from, choices);
    if is_match_at(e, tok, p) {
        match first_match_from(s, tok, from) {
            None => {
                lemma_no_match_rest(s, tok, from, choices);
                assert(s.subrange(from + p, from + p + tok.len() as int) =~= tok) by {
                    assert forall|k: int| 0 <= k < tok.len() implies s[from + p + k] == tok[k] by {
                        assert(e.subrange(p, p + tok.len() as int)[k] == e[p + k]);
                    }
                }
                lemma_first_match_none(s, tok, from, from + p);
                assert(false);
            },
            Some(i) => {
                lemma_expand_jump(s, tok, from, i, choices);
                lemma_first_match_some(s, tok, from, i);
                let seg = s.subrange(from, i);
                let ch = choices.first();
                let rest = expand_tail(s, tok, i + tok.len() as int, choices.drop_first());
                let sl = seg.len() as int;
                let cl = ch.len() as int;
                assert(choices.len() > 0);
                assert(ch == choices[0]);
                assert(cl > 0);
                assert(e == seg + ch + rest);
                assert(forall|k: int| 0 <= k < tok.len() ==> e[p + k] == tok[k]) by {
                    assert forall|k: int| 0 <= k < tok.len() implies e[p + k] == tok[k] by {
                        assert(e.subrange(p, p + tok.len() as int)[k] == e[p + k]);
                    }
                }
                if p + tok.len() <= sl {
                    assert(s.subrange(from + p, from + p + tok.len() as int) =~= tok) by {
                        assert forall|k: int| 0 <= k < tok.len() implies s[from + p + k] == tok[k] by {
                            assert(e[p + k] == seg[p + k]);
                        }
                    }
                    assert(is_match_at(s, tok, from + p));
                    assert(from <= from + p < i);
                    assert(false);
                } else if p >= sl + cl {
                    assert(is_match_at(rest, tok, p - sl - cl)) by {
                        assert(rest.subrange(p - sl - cl, p - sl - cl + tok.len() as int) =~= tok) by {
                            assert forall|k: int| 0 <= k < tok.len() implies rest[p - sl - cl + k]
                                == tok[k] by {
                                assert(e[p + k] == rest[p + k - sl - cl]);
                            }
                        }
                    }
                    assert(choices.drop_first().len() == count_from(s, tok, i + tok.len() as int));
                    assert(forall|j: int| 0 <= j < choices.drop_first().len()
                        ==> (#[trigger] choices.drop_first()[j]).len() > 0
                        && char_disjoint(choices.drop_first()[j], tok));
                    lemma_expand_no_token(s, tok, i + tok.len() as int, choices.drop_first(), p - sl - cl);
                    assert(false);
                } else {
                    let q: int = if p >= sl { p } else { sl };
                    assert(q < p + tok.len());
                    assert(sl <= q < sl + cl);
                    assert(e[q] == ch[q - sl]);
                    assert(e[q] == tok[q - p]);
                    assert(char_disjoint(ch, tok));
                    assert(ch[q - sl] != tok[q - p]);
                    assert(false);
                }
            },
        }
    }
}

} // verus!
