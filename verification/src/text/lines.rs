//! The lines of a text.

use crate::text::{copy_range, rows};
use crate::text::join::join;
use crate::text::space::{trim, trimmed};
use vstd::prelude::*;

verus! {

/// Whether `l` can be a line of a text: it holds no line feed and does not
/// end with a carriage return.
pub open spec fn is_line(l: Seq<char>) -> bool {
    &&& forall|i: int| 0 <= i < l.len() ==> #[trigger] l[i] != '\n'
    &&& l.len() > 0 ==> l.last() != '\r'
}

/// The separator between the lines of a text.
pub open spec fn line_feed() -> Seq<char> {
    seq!['\n']
}

/// The number of characters of `s` before its first line feed.
pub open spec fn line_len(s: Seq<char>) -> nat
    decreases s.len(),
{
    if s.len() > 0 && s[0] != '\n' {
        1 + line_len(s.skip(1))
    } else {
        0
    }
}

/// `l` without one trailing carriage return.
pub open spec fn strip_cr(l: Seq<char>) -> Seq<char> {
    if l.len() > 0 && l.last() == '\r' {
        l.drop_last()
    } else {
        l
    }
}

/// The lines of `s`. A line ends at a line feed, or at a carriage return
/// directly followed by a line feed; the line ending is not part of the line.
/// Text after the last line feed is a line of its own unless it is empty, and
/// keeps a trailing carriage return.
pub open spec fn lines(s: Seq<char>) -> Seq<Seq<char>>
    decreases s.len(),
    via lines_decreases
{
    if s.len() == 0 {
        Seq::empty()
    } else {
        let n = line_len(s) as int;
        if n == s.len() {
            seq![s]
        } else {
            seq![strip_cr(s.take(n))] + lines(s.skip(n + 1))
        }
    }
}

#[via_fn]
proof fn lines_decreases(s: Seq<char>) {
    lemma_line_len_bounds(s);
}

/// The lines of `v`.
pub fn split_lines(v: &Vec<char>) -> (r: Vec<Vec<char>>)
    ensures
        rows(r@) == lines(v@),
{
    let n = v.len();
    let mut r: Vec<Vec<char>> = Vec::new();
    let mut i: usize = 0;
    proof {
        assert(v@.skip(0) =~= v@);
    }
    while i < n
        invariant
            i <= n,
            n == v.len(),
            rows(r@) + lines(v@.skip(i as int)) == lines(v@),
        decreases n - i,
    {
        let ghost rest = v@.skip(i as int);
        let start = i;
        while i < n && v[i] != '\n'
            invariant
                start <= i <= n,
                n == v.len(),
                forall|j: int| start <= j < i ==> #[trigger] v@[j] != '\n',
            decreases n - i,
        {
            i += 1;
        }
        proof {
            assert forall|j: int| 0 <= j < i - start implies #[trigger] rest[j] != '\n' by {
                assert(rest[j] == v@[j + start]);
            }
            lemma_line_len_is(rest, i - start);
        }
        if i == n {
            let line = copy_range(v, start, n);
            proof {
                assert(line@ =~= rest);
                assert(rows(r@.push(line)) =~= rows(r@) + seq![line@]);
                assert(v@.skip(n as int).len() == 0);
                assert(lines(v@.skip(n as int)) =~= Seq::<Seq<char>>::empty());
                assert(rows(r@.push(line)) + lines(v@.skip(n as int)) =~= rows(r@) + lines(rest));
            }
            r.push(line);
        } else {
            let end = if i > start && v[i - 1] == '\r' {
                i - 1
            } else {
                i
            };
            let line = copy_range(v, start, end);
            proof {
                let raw = rest.take(i - start);
                assert(raw =~= v@.subrange(start as int, i as int));
                assert(line@ =~= strip_cr(raw));
                assert(rest.skip(i - start + 1) =~= v@.skip(i + 1));
                assert(rows(r@.push(line)) =~= rows(r@) + seq![line@]);
                assert(rows(r@.push(line)) + lines(v@.skip(i + 1)) =~= rows(r@) + lines(rest));
            }
            r.push(line);
            i += 1;
        }
    }
    proof {
        assert(v@.skip(n as int).len() == 0);
        assert(rows(r@) + Seq::<Seq<char>>::empty() =~= rows(r@));
    }
    r
}

/// The lines of `s`, each trimmed, without those that are then empty.
pub open spec fn trimmed_lines(s: Seq<char>) -> Seq<Seq<char>> {
    lines(s).map_values(|l: Seq<char>| trim(l)).filter(|l: Seq<char>| l.len() > 0)
}

/// The lines of `v`, each trimmed, without those that are then empty.
pub fn split_trimmed_lines(v: &Vec<char>) -> (r: Vec<Vec<char>>)
    ensures
        rows(r@) == trimmed_lines(v@),
        forall|i: int| 0 <= i < r.len() ==> (#[trigger] r@[i]).len() > 0,
{
    let ls = split_lines(v);
    let ghost all = lines(v@);
    let ghost f = |l: Seq<char>| trim(l);
    let ghost keep = |l: Seq<char>| l.len() > 0;
    let mut r: Vec<Vec<char>> = Vec::new();
    let mut i: usize = 0;
    proof {
        reveal(Seq::filter);
        assert(all.take(0).map_values(f) =~= Seq::<Seq<char>>::empty());
    }
    while i < ls.len()
        invariant
            i <= ls.len(),
            rows(ls@) == all,
            f == |l: Seq<char>| trim(l),
            keep == |l: Seq<char>| l.len() > 0,
            rows(r@) == all.take(i as int).map_values(f).filter(keep),
            forall|j: int| 0 <= j < r.len() ==> (#[trigger] r@[j]).len() > 0,
        decreases ls.len() - i,
    {
        let t = trimmed(&ls[i]);
        proof {
            reveal(Seq::filter);
            let next = all.take(i + 1).map_values(f);
            assert(next.drop_last() =~= all.take(i as int).map_values(f));
            assert(next.last() == t@);
        }
        if t.len() > 0 {
            let ghost before = r@;
            r.push(t);
            proof {
                assert(rows(r@) =~= rows(before).push(t@));
            }
        }
        i += 1;
    }
    proof {
        assert(all.take(ls.len() as int) =~= all);
    }
    r
}

/// `line_len` counts no more characters than the text has.
pub proof fn lemma_line_len_bounds(s: Seq<char>)
    ensures
        line_len(s) <= s.len(),
    decreases s.len(),
{
    if s.len() > 0 && s[0] != '\n' {
        lemma_line_len_bounds(s.skip(1));
    }
}

/// `line_len` is the length of the leading run of characters other than
/// line feed.
pub proof fn lemma_line_len_is(s: Seq<char>, k: int)
    requires
        0 <= k <= s.len(),
        forall|i: int| 0 <= i < k ==> #[trigger] s[i] != '\n',
        k == s.len() || s[k] == '\n',
    ensures
        line_len(s) == k,
    decreases k,
{
    if k > 0 {
        let t = s.skip(1);
        assert forall|i: int| 0 <= i < k - 1 implies #[trigger] t[i] != '\n' by {
            assert(t[i] == s[i + 1]);
        }
        lemma_line_len_is(t, k - 1);
    }
}

/// The characters that `line_len` counts are no line feed.
pub proof fn lemma_line_len_run(s: Seq<char>)
    ensures
        forall|i: int| 0 <= i < line_len(s) ==> #[trigger] s[i] != '\n',
    decreases s.len(),
{
    if s.len() > 0 && s[0] != '\n' {
        let t = s.skip(1);
        lemma_line_len_run(t);
        lemma_line_len_bounds(t);
        assert forall|i: int| 0 <= i < line_len(s) implies #[trigger] s[i] != '\n' by {
            if i > 0 {
                assert(s[i] == t[i - 1]);
            }
        }
    }
}

/// No line of a text holds a line feed.
pub proof fn lemma_lines_hold_no_line_feed(s: Seq<char>)
    ensures
        forall|k: int, i: int|
            0 <= k < lines(s).len() && 0 <= i < lines(s)[k].len() ==> #[trigger] lines(s)[k][i]
                != '\n',
    decreases s.len(),
{
    if s.len() > 0 {
        let n = line_len(s) as int;
        lemma_line_len_bounds(s);
        lemma_line_len_run(s);
        if n < s.len() {
            let first = strip_cr(s.take(n));
            let later = lines(s.skip(n + 1));
            lemma_lines_hold_no_line_feed(s.skip(n + 1));
            assert(lines(s) == seq![first] + later);
            assert forall|k: int, i: int|
                0 <= k < lines(s).len() && 0 <= i < lines(s)[k].len() implies #[trigger] lines(
                s,
            )[k][i] != '\n' by {
                if k == 0 {
                    assert(first[i] == s[i]);
                } else {
                    assert(lines(s)[k] == later[k - 1]);
                }
            }
        }
    }
}

/// Splitting joined lines, each ended by a line feed, gives the lines back.
pub proof fn lemma_lines_of_joined(ls: Seq<Seq<char>>)
    requires
        ls.len() > 0,
        forall|k: int| 0 <= k < ls.len() ==> is_line(#[trigger] ls[k]),
    ensures
        lines(join(ls, line_feed()) + line_feed()) == ls,
    decreases ls.len(),
{
    let l0 = ls[0];
    let n = l0.len() as int;
    let text = join(ls, line_feed()) + line_feed();
    assert(is_line(l0));
    if ls.len() == 1 {
        assert(text =~= l0 + line_feed());
        assert forall|i: int| 0 <= i < n implies #[trigger] text[i] != '\n' by {
            assert(text[i] == l0[i]);
        }
        assert(text[n] == '\n');
        lemma_line_len_is(text, n);
        assert(text.take(n) =~= l0);
        assert(text.skip(n + 1).len() == 0);
        assert(lines(text) =~= seq![strip_cr(text.take(n))] + lines(text.skip(n + 1)));
        assert(lines(text) =~= ls);
    } else {
        let rest = ls.skip(1);
        assert forall|k: int| 0 <= k < rest.len() implies is_line(#[trigger] rest[k]) by {
            assert(rest[k] == ls[k + 1]);
        }
        lemma_lines_of_joined(rest);
        let tail = join(rest, line_feed()) + line_feed();
        assert(text =~= l0 + line_feed() + tail);
        assert forall|i: int| 0 <= i < n implies #[trigger] text[i] != '\n' by {
            assert(text[i] == l0[i]);
        }
        assert(text[n] == '\n');
        lemma_line_len_is(text, n);
        assert(text.take(n) =~= l0);
        assert(text.skip(n + 1) =~= tail);
        assert(lines(text) =~= seq![strip_cr(text.take(n))] + lines(text.skip(n + 1)));
        assert(seq![l0] + rest =~= ls);
    }
}

} // verus!
