//! The words of a text: its maximal runs of characters that are no white
//! space.

use crate::text::{copy_range, rows};
use crate::text::join::join;
use crate::text::space::{char_is_space, is_space};
use vstd::prelude::*;

verus! {

/// Whether `t` is a word: not empty and free of white space.
pub open spec fn is_word(t: Seq<char>) -> bool {
    t.len() > 0 && forall|i: int| 0 <= i < t.len() ==> !is_space(#[trigger] t[i])
}

/// The separator between the words of a line.
pub open spec fn blank() -> Seq<char> {
    seq![' ']
}

/// The number of characters of `s` before its first white space.
pub open spec fn word_len(s: Seq<char>) -> nat
    decreases s.len(),
{
    if s.len() > 0 && !is_space(s[0]) {
        1 + word_len(s.skip(1))
    } else {
        0
    }
}

/// The maximal runs of characters of `s` that are not white space, in order.
pub open spec fn words(s: Seq<char>) -> Seq<Seq<char>>
    decreases s.len(),
    via words_decreases
{
    if s.len() == 0 {
        Seq::empty()
    } else if is_space(s[0]) {
        words(s.skip(1))
    } else {
        let n = word_len(s) as int;
        seq![s.take(n)] + words(s.skip(n))
    }
}

#[via_fn]
proof fn words_decreases(s: Seq<char>) {
    lemma_word_len_bounds(s);
}

/// The words of `v`, split at white space.
pub fn split_words(v: &Vec<char>) -> (r: Vec<Vec<char>>)
    ensures
        rows(r@) == words(v@),
{
    let n = v.len();
    let mut r: Vec<Vec<char>> = Vec::new();
    let mut i: usize = 0;
    proof {
        assert(v@.skip(0) =~= v@);
    }
    while i < n
        invariant
            i <= n,
            n == v.len(),
            rows(r@) + words(v@.skip(i as int)) == words(v@),
        decreases n - i,
    {
        let ghost rest = v@.skip(i as int);
        if char_is_space(v[i]) {
            proof {
                assert(rest.skip(1) =~= v@.skip(i + 1));
            }
            i += 1;
        } else {
            let start = i;
            while i < n && !char_is_space(v[i])
                invariant
                    start <= i <= n,
                    n == v.len(),
                    forall|j: int| start <= j < i ==> !is_space(#[trigger] v@[j]),
                decreases n - i,
            {
                i += 1;
            }
            let word = copy_range(v, start, i);
            proof {
                assert forall|j: int| 0 <= j < i - start implies !is_space(#[trigger] rest[j]) by {
                    assert(rest[j] == v@[j + start]);
                }
                lemma_word_len_is(rest, i - start);
                assert(rest.take(i - start) =~= word@);
                assert(rest.skip(i - start) =~= v@.skip(i as int));
                assert(rows(r@.push(word)) =~= rows(r@) + seq![word@]);
                assert(rows(r@.push(word)) + words(v@.skip(i as int)) =~= rows(r@) + words(rest));
            }
            r.push(word);
        }
    }
    proof {
        assert(v@.skip(n as int).len() == 0);
        assert(rows(r@) + Seq::<Seq<char>>::empty() =~= rows(r@));
    }
    r
}

/// `word_len` counts no more characters than the text has, and at least
/// one if the text begins with a character that is no white space.
pub proof fn lemma_word_len_bounds(s: Seq<char>)
    ensures
        word_len(s) <= s.len(),
        s.len() > 0 && !is_space(s[0]) ==> word_len(s) >= 1,
    decreases s.len(),
{
    if s.len() > 0 && !is_space(s[0]) {
        lemma_word_len_bounds(s.skip(1));
    }
}

/// `word_len` is the length of the leading run of characters that are not
/// white space.
pub proof fn lemma_word_len_is(s: Seq<char>, k: int)
    requires
        0 <= k <= s.len(),
        forall|i: int| 0 <= i < k ==> !is_space(#[trigger] s[i]),
        k == s.len() || is_space(s[k]),
    ensures
        word_len(s) == k,
    decreases k,
{
    if k > 0 {
        let t = s.skip(1);
        assert forall|i: int| 0 <= i < k - 1 implies !is_space(#[trigger] t[i]) by {
            assert(t[i] == s[i + 1]);
        }
        lemma_word_len_is(t, k - 1);
    }
}

/// The characters that `word_len` counts are no white space.
pub proof fn lemma_word_len_run(s: Seq<char>)
    ensures
        forall|i: int| 0 <= i < word_len(s) ==> !is_space(#[trigger] s[i]),
        word_len(s) < s.len() ==> is_space(s[word_len(s) as int]),
    decreases s.len(),
{
    if s.len() > 0 && !is_space(s[0]) {
        let t = s.skip(1);
        lemma_word_len_run(t);
        lemma_word_len_bounds(t);
        assert forall|i: int| 0 <= i < word_len(s) implies !is_space(#[trigger] s[i]) by {
            if i > 0 {
                assert(s[i] == t[i - 1]);
            }
        }
        if word_len(s) < s.len() {
            assert(s[word_len(s) as int] == t[word_len(t) as int]);
        }
    }
}

/// Every word of a text is a word.
pub proof fn lemma_words_are_words(s: Seq<char>)
    ensures
        forall|k: int| 0 <= k < words(s).len() ==> is_word(#[trigger] words(s)[k]),
    decreases s.len(),
{
    if s.len() == 0 {
    } else if is_space(s[0]) {
        lemma_words_are_words(s.skip(1));
        assert(words(s) == words(s.skip(1)));
    } else {
        let n = word_len(s) as int;
        lemma_word_len_bounds(s);
        lemma_word_len_run(s);
        lemma_words_are_words(s.skip(n));
        let w = s.take(n);
        assert(is_word(w)) by {
            assert forall|i: int| 0 <= i < w.len() implies !is_space(#[trigger] w[i]) by {
                assert(w[i] == s[i]);
            }
        }
        assert(words(s) == seq![w] + words(s.skip(n)));
        assert forall|k: int| 0 <= k < words(s).len() implies is_word(#[trigger] words(s)[k]) by {
            if k > 0 {
                assert(words(s)[k] == words(s.skip(n))[k - 1]);
            } else {
                assert(words(s)[0] == w);
            }
        }
    }
}

/// Words joined by single blanks form a text that begins with the first
/// word's first character, ends with the last word's last character, and
/// holds no white space but the blanks.
pub proof fn lemma_joined_words_shape(tokens: Seq<Seq<char>>)
    requires
        tokens.len() > 0,
        forall|k: int| 0 <= k < tokens.len() ==> is_word(#[trigger] tokens[k]),
    ensures
        join(tokens, blank()).len() > 0,
        join(tokens, blank())[0] == tokens[0][0],
        join(tokens, blank()).last() == tokens.last().last(),
        forall|i: int|
            0 <= i < join(tokens, blank()).len() ==> (#[trigger] join(tokens, blank())[i]) == ' '
                || !is_space(join(tokens, blank())[i]),
    decreases tokens.len(),
{
    let j = join(tokens, blank());
    assert(is_word(tokens[0]));
    if tokens.len() > 1 {
        let rest = tokens.skip(1);
        assert forall|k: int| 0 <= k < rest.len() implies is_word(#[trigger] rest[k]) by {
            assert(rest[k] == tokens[k + 1]);
        }
        lemma_joined_words_shape(rest);
        let jr = join(rest, blank());
        assert(j == tokens[0] + blank() + jr);
        assert(rest.last() == tokens.last());
        assert forall|i: int| 0 <= i < j.len() implies (#[trigger] j[i]) == ' ' || !is_space(
            j[i],
        ) by {
            if i < tokens[0].len() {
                assert(j[i] == tokens[0][i]);
            } else if i == tokens[0].len() {
                assert(j[i] == ' ');
            } else {
                assert(j[i] == jr[i - tokens[0].len() - 1]);
            }
        }
        assert(j.last() == jr.last());
    }
}

/// Splitting joined words gives the words back.
pub proof fn lemma_words_of_joined(tokens: Seq<Seq<char>>)
    requires
        forall|k: int| 0 <= k < tokens.len() ==> is_word(#[trigger] tokens[k]),
    ensures
        words(join(tokens, blank())) == tokens,
    decreases tokens.len(),
{
    let j = join(tokens, blank());
    if tokens.len() == 0 {
        assert(words(j) =~= tokens);
    } else {
        let t0 = tokens[0];
        assert(is_word(t0));
        if tokens.len() == 1 {
            assert(j == t0);
            lemma_word_len_is(j, t0.len() as int);
            assert(j.take(t0.len() as int) =~= t0);
            assert(j.skip(t0.len() as int).len() == 0);
            assert(words(j) =~= seq![t0] + words(j.skip(t0.len() as int)));
            assert(words(j) =~= tokens);
        } else {
            let rest = tokens.skip(1);
            assert forall|k: int| 0 <= k < rest.len() implies is_word(#[trigger] rest[k]) by {
                assert(rest[k] == tokens[k + 1]);
            }
            lemma_words_of_joined(rest);
            let jr = join(rest, blank());
            assert(j == t0 + blank() + jr);
            let n = t0.len() as int;
            assert forall|i: int| 0 <= i < n implies !is_space(#[trigger] j[i]) by {
                assert(j[i] == t0[i]);
            }
            assert(j[n] == ' ');
            lemma_word_len_is(j, n);
            assert(j.take(n) =~= t0);
            let after = j.skip(n);
            assert(after =~= blank() + jr);
            assert(after[0] == ' ');
            assert(after.skip(1) =~= jr);
            assert(words(after) == words(jr));
            assert(words(j) == seq![j.take(n)] + words(after));
            assert(seq![t0] + rest =~= tokens);
        }
    }
}

/// Whether `s` holds nothing but white space.
pub open spec fn is_blank(s: Seq<char>) -> bool {
    forall|i: int| 0 <= i < s.len() ==> is_space(#[trigger] s[i])
}

/// A text has no words if and only if it holds nothing but white space.
pub proof fn lemma_no_words_iff_blank(s: Seq<char>)
    ensures
        words(s).len() == 0 <==> is_blank(s),
    decreases s.len(),
{
    if s.len() > 0 {
        if is_space(s[0]) {
            let t = s.skip(1);
            lemma_no_words_iff_blank(t);
            if is_blank(t) {
                assert forall|i: int| 0 <= i < s.len() implies is_space(#[trigger] s[i]) by {
                    if i > 0 {
                        assert(s[i] == t[i - 1]);
                    }
                }
            }
            if is_blank(s) {
                assert forall|i: int| 0 <= i < t.len() implies is_space(#[trigger] t[i]) by {
                    assert(t[i] == s[i + 1]);
                }
            }
        } else {
            lemma_word_len_bounds(s);
            assert(words(s).len() >= 1);
        }
    }
}

} // verus!
