//! Text primitives over sequences of characters.
//!
//! Every string the library reads (commit-list lines, commit messages, hash
//! listings) is modelled as a `Seq<char>`. The modules below define what
//! trimming, splitting into words and lines, joining, prefix matching and
//! ordering mean on that model, and provide executable counterparts on
//! `Vec<char>` and `String`.

pub mod join;
pub mod lines;
pub mod order;
pub mod prefix;
pub mod space;
pub mod words;

pub use crate::text::join::{join, join_strings, lemma_join_nested, lemma_join_push};
pub use crate::text::lines::{
    is_line, lemma_line_len_bounds, lemma_line_len_is, lemma_line_len_run,
    lemma_lines_hold_no_line_feed, lemma_lines_of_joined, line_feed, line_len, lines, split_lines,
    split_trimmed_lines, strip_cr, trimmed_lines,
};
pub use crate::text::order::{
    lemma_precedes_irreflexive, lemma_precedes_total, lemma_precedes_transitive, precedes,
    text_precedes,
};
pub use crate::text::prefix::{begins_with, hash_matches, hashes_match, starts_with};
pub use crate::text::space::{
    char_is_space, is_space, lemma_trim_end_is_take, lemma_trim_keeps, lemma_trim_start_is_skip,
    lemma_trimmed_shape, trim, trim_end, trim_start, trimmed,
};
pub use crate::text::words::{
    blank, is_blank, is_word, lemma_joined_words_shape, lemma_no_words_iff_blank,
    lemma_word_len_bounds, lemma_word_len_is, lemma_word_len_run, lemma_words_are_words,
    lemma_words_of_joined, split_words, word_len, words,
};
use vstd::prelude::*;
use vstd::string::*;

verus! {

/// `String::push` appends one character to the end of the string.
pub assume_specification[ String::push ](s: &mut String, ch: char)
    ensures
        final(s)@ == old(s)@.push(ch),
;

/// The characters of a string slice, in order.
pub fn chars_of(s: &str) -> (v: Vec<char>)
    ensures
        v@ == s@,
{
    let mut v: Vec<char> = Vec::new();
    for c in it: s.chars()
        invariant
            v@ == it.seq().take(it.index() as int),
            it.seq() == s@,
    {
        v.push(c);
    }
    v
}

/// The string made of the given characters, in order.
pub fn string_of(v: &Vec<char>) -> (s: String)
    ensures
        s@ == v@,
{
    let mut s = String::new();
    let mut i: usize = 0;
    while i < v.len()
        invariant
            i <= v.len(),
            s@ == v@.take(i as int),
        decreases v.len() - i,
    {
        s.push(v[i]);
        i += 1;
    }
    s
}

/// The characters of `v` at the positions `from..to`.
pub(crate) fn copy_range(v: &Vec<char>, from: usize, to: usize) -> (r: Vec<char>)
    requires
        from <= to <= v.len(),
    ensures
        r@ == v@.subrange(from as int, to as int),
{
    let mut r: Vec<char> = Vec::new();
    let mut i: usize = from;
    while i < to
        invariant
            from <= i <= to <= v.len(),
            r@ == v@.subrange(from as int, i as int),
        decreases to - i,
    {
        r.push(v[i]);
        i += 1;
    }
    r
}

/// The views of a list of character vectors.
pub open spec fn rows(v: Seq<Vec<char>>) -> Seq<Seq<char>> {
    Seq::new(v.len(), |i: int| v[i]@)
}

/// The views of a list of strings.
pub open spec fn texts(v: Seq<String>) -> Seq<Seq<char>> {
    Seq::new(v.len(), |i: int| v[i]@)
}

/// The view of an optional string.
pub open spec fn opt_text(o: Option<String>) -> Option<Seq<char>> {
    match o {
        Some(s) => Some(s@),
        None => None,
    }
}

/// The strings made of the given character vectors.
pub fn strings_of(v: &Vec<Vec<char>>) -> (r: Vec<String>)
    ensures
        texts(r@) == rows(v@),
{
    let mut r: Vec<String> = Vec::new();
    let mut i: usize = 0;
    while i < v.len()
        invariant
            i <= v.len(),
            r.len() == i,
            texts(r@) == rows(v@).take(i as int),
        decreases v.len() - i,
    {
        let ghost before = r@;
        r.push(string_of(&v[i]));
        proof {
            assert forall|j: int| 0 <= j < i + 1 implies texts(r@)[j] == rows(v@)[j] by {
                if j < i {
                    assert(texts(before)[j] == rows(v@).take(i as int)[j]);
                }
            }
            assert(texts(r@) =~= rows(v@).take(i + 1));
        }
        i += 1;
    }
    proof {
        assert(rows(v@).take(v.len() as int) =~= rows(v@));
    }
    r
}

/// A copy of a list of strings.
pub fn clone_strings(v: &Vec<String>) -> (r: Vec<String>)
    ensures
        r@ == v@,
{
    let mut r: Vec<String> = Vec::new();
    let mut i: usize = 0;
    while i < v.len()
        invariant
            i <= v.len(),
            r@ == v@.take(i as int),
        decreases v.len() - i,
    {
        r.push(v[i].clone());
        proof {
            assert(r@ =~= v@.take(i + 1));
        }
        i += 1;
    }
    proof {
        assert(v@.take(v.len() as int) =~= v@);
    }
    r
}

/// Whether two strings hold the same characters.
pub fn same_text(a: &str, b: &str) -> (r: bool)
    ensures
        r == (a@ == b@),
{
    let x = chars_of(a);
    let y = chars_of(b);
    if x.len() != y.len() {
        return false;
    }
    let mut i: usize = 0;
    while i < x.len()
        invariant
            i <= x.len(),
            x.len() == y.len(),
            x@ == a@,
            y@ == b@,
            forall|j: int| 0 <= j < i ==> x@[j] == y@[j],
        decreases x.len() - i,
    {
        if x[i] != y[i] {
            return false;
        }
        i += 1;
    }
    proof {
        assert(x@ =~= y@);
    }
    true
}

/// Whether `items` holds a string with the characters of `item`.
pub fn contains_text(items: &Vec<String>, item: &str) -> (r: bool)
    ensures
        r == texts(items@).contains(item@),
{
    let mut i: usize = 0;
    while i < items.len()
        invariant
            i <= items.len(),
            forall|j: int| 0 <= j < i ==> texts(items@)[j] != item@,
        decreases items.len() - i,
    {
        if same_text(items[i].as_str(), item) {
            proof {
                assert(texts(items@)[i as int] == item@);
            }
            return true;
        }
        i += 1;
    }
    false
}

/// The first of `queue`, if it has one, and the others.
pub fn pop_front(queue: Vec<String>) -> (r: (Option<String>, Vec<String>))
    ensures
        match r.0 {
            Some(first) => texts(queue@).len() > 0 && first@ == texts(queue@)[0] && texts(r.1@)
                == texts(queue@).skip(1),
            None => queue@.len() == 0 && r.1@.len() == 0,
        },
{
    let mut queue = queue;
    if queue.len() == 0 {
        (None, queue)
    } else {
        let ghost before = texts(queue@);
        let first = queue.remove(0);
        proof {
            assert(texts(queue@) =~= before.skip(1));
        }
        (Some(first), queue)
    }
}

} // verus!
