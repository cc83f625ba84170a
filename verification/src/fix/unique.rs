//! The final list of fixes: each fix once, in the order of the hashes.

use crate::commits::{commit_views, default_modeline, line_of, CommitInfo, CommitView};
use crate::text::{
    join, join_strings, lemma_precedes_irreflexive, lemma_precedes_total, lemma_precedes_transitive,
    line_feed, precedes, same_text, text_precedes, texts,
};
use vstd::prelude::*;
use vstd::string::*;

verus! {

/// How many commits at the head of `cs` have a hash that comes before
/// `hash` in the order of strings.
pub open spec fn rank(cs: Seq<CommitView>, hash: Seq<char>) -> int
    decreases cs.len(),
{
    if cs.len() > 0 && precedes(cs[0].hash, hash) {
        1 + rank(cs.skip(1), hash)
    } else {
        0
    }
}

/// The commits `sorted` with `c` at its place in the order of hashes,
/// unless a commit with the hash of `c` stands there already.
pub open spec fn insert_fix(sorted: Seq<CommitView>, c: CommitView) -> Seq<CommitView> {
    let p = rank(sorted, c.hash);
    if p < sorted.len() && sorted[p].hash == c.hash {
        sorted
    } else {
        sorted.insert(p, c)
    }
}

/// The commits `fixes` in the order of their hashes, one for each hash: the
/// first in `fixes` that has it.
pub open spec fn unique_fixes(fixes: Seq<CommitView>) -> Seq<CommitView>
    decreases fixes.len(),
{
    if fixes.len() == 0 {
        Seq::empty()
    } else {
        insert_fix(unique_fixes(fixes.drop_last()), fixes.last())
    }
}

/// Whether the hashes of `cs` strictly ascend in the order of strings.
pub open spec fn ascending(cs: Seq<CommitView>) -> bool {
    forall|i: int, j: int| 0 <= i < j < cs.len() ==> precedes(#[trigger] cs[i].hash, #[trigger] cs[j].hash)
}

/// Whether `c` is the first commit of `fixes` with its hash.
pub open spec fn is_first_with_hash(fixes: Seq<CommitView>, c: CommitView) -> bool {
    exists|k: int|
        0 <= k < fixes.len() && #[trigger] fixes[k] == c && forall|j: int|
            0 <= j < k ==> (#[trigger] fixes[j]).hash != c.hash
}

/// Whether some commit of `cs` has the hash `hash`.
pub open spec fn has_hash(cs: Seq<CommitView>, hash: Seq<char>) -> bool {
    exists|i: int| 0 <= i < cs.len() && (#[trigger] cs[i]).hash == hash
}

/// `rank` counts the leading run of commits whose hash comes before
/// `hash`.
pub proof fn lemma_rank(cs: Seq<CommitView>, hash: Seq<char>)
    ensures
        0 <= rank(cs, hash) <= cs.len(),
        forall|i: int| 0 <= i < rank(cs, hash) ==> precedes((#[trigger] cs[i]).hash, hash),
        rank(cs, hash) < cs.len() ==> !precedes(cs[rank(cs, hash)].hash, hash),
    decreases cs.len(),
{
    if cs.len() > 0 && precedes(cs[0].hash, hash) {
        let t = cs.skip(1);
        lemma_rank(t, hash);
        assert forall|i: int| 0 <= i < rank(cs, hash) implies precedes(
            (#[trigger] cs[i]).hash,
            hash,
        ) by {
            if i > 0 {
                assert(cs[i] == t[i - 1]);
            }
        }
        if rank(cs, hash) < cs.len() {
            assert(cs[rank(cs, hash)] == t[rank(t, hash)]);
        }
    }
}

/// `rank` is the length of the leading run of commits whose hash comes
/// before `hash`.
pub proof fn lemma_rank_is(cs: Seq<CommitView>, hash: Seq<char>, p: int)
    requires
        0 <= p <= cs.len(),
        forall|i: int| 0 <= i < p ==> precedes((#[trigger] cs[i]).hash, hash),
        p == cs.len() || !precedes(cs[p].hash, hash),
    ensures
        rank(cs, hash) == p,
    decreases p,
{
    if p > 0 {
        let t = cs.skip(1);
        assert(precedes(cs[0].hash, hash));
        assert forall|i: int| 0 <= i < p - 1 implies precedes((#[trigger] t[i]).hash, hash) by {
            assert(t[i] == cs[i + 1]);
        }
        lemma_rank_is(t, hash, p - 1);
    }
}

/// Deduplication of fixes: in the final list the hashes strictly ascend, so
/// that no hash stands twice; every commit of it is the first of the given
/// ones with its hash; and every hash of the given ones stands in it.
pub proof fn lemma_unique_fixes(fixes: Seq<CommitView>)
    ensures
        ascending(unique_fixes(fixes)),
        forall|i: int|
            0 <= i < unique_fixes(fixes).len() ==> is_first_with_hash(
                fixes,
                #[trigger] unique_fixes(fixes)[i],
            ),
        forall|k: int|
            0 <= k < fixes.len() ==> has_hash(unique_fixes(fixes), (#[trigger] fixes[k]).hash),
    decreases fixes.len(),
{
    if fixes.len() > 0 {
        let head = fixes.drop_last();
        let c = fixes.last();
        let u = unique_fixes(head);
        let r = unique_fixes(fixes);
        let p = rank(u, c.hash);
        lemma_unique_fixes(head);
        lemma_rank(u, c.hash);
        assert forall|x: CommitView| is_first_with_hash(head, x) implies is_first_with_hash(
            fixes,
            x,
        ) by {
            let k = choose|k: int|
                0 <= k < head.len() && #[trigger] head[k] == x && forall|j: int|
                    0 <= j < k ==> (#[trigger] head[j]).hash != x.hash;
            assert(fixes[k] == x);
            assert forall|j: int| 0 <= j < k implies (#[trigger] fixes[j]).hash != x.hash by {
                assert(fixes[j] == head[j]);
            }
        }
        if p < u.len() && u[p].hash == c.hash {
            assert forall|k: int| 0 <= k < fixes.len() implies has_hash(
                r,
                (#[trigger] fixes[k]).hash,
            ) by {
                if k < head.len() {
                    assert(fixes[k] == head[k]);
                    assert(has_hash(u, head[k].hash));
                } else {
                    assert(u[p].hash == fixes[k].hash);
                }
            }
        } else {
            if p < u.len() {
                lemma_precedes_total(u[p].hash, c.hash);
            }
            assert forall|i: int| p <= i < u.len() implies precedes(c.hash, (#[trigger] u[i]).hash) by {
                if i > p {
                    lemma_precedes_transitive(c.hash, u[p].hash, u[i].hash);
                }
            }
            assert forall|i: int| 0 <= i < u.len() implies (#[trigger] u[i]).hash != c.hash by {
                lemma_precedes_irreflexive(c.hash);
            }
            assert forall|i: int, j: int| 0 <= i < j < r.len() implies precedes(
                #[trigger] r[i].hash,
                #[trigger] r[j].hash,
            ) by {
                if j < p {
                    assert(r[i] == u[i] && r[j] == u[j]);
                } else if j == p {
                    assert(r[i] == u[i]);
                } else if i < p {
                    assert(r[i] == u[i] && r[j] == u[j - 1]);
                } else if i == p {
                    assert(r[j] == u[j - 1]);
                } else {
                    assert(r[i] == u[i - 1] && r[j] == u[j - 1]);
                }
            }
            assert(is_first_with_hash(fixes, c)) by {
                assert forall|j: int| 0 <= j < head.len() implies (#[trigger] fixes[j]).hash
                    != c.hash by {
                    assert(fixes[j] == head[j]);
                    assert(has_hash(u, head[j].hash));
                }
                assert(fixes[fixes.len() - 1] == c);
            }
            assert forall|i: int| 0 <= i < r.len() implies is_first_with_hash(
                fixes,
                #[trigger] r[i],
            ) by {
                if i < p {
                    assert(r[i] == u[i]);
                } else if i > p {
                    assert(r[i] == u[i - 1]);
                }
            }
            assert forall|k: int| 0 <= k < fixes.len() implies has_hash(
                r,
                (#[trigger] fixes[k]).hash,
            ) by {
                if k < head.len() {
                    assert(fixes[k] == head[k]);
                    assert(has_hash(u, head[k].hash));
                    let i = choose|i: int| 0 <= i < u.len() && (#[trigger] u[i]).hash == head[k].hash;
                    if i < p {
                        assert(r[i] == u[i]);
                    } else {
                        assert(r[i + 1] == u[i]);
                    }
                } else {
                    assert(r[p] == c);
                }
            }
        }
    }
}

/// A fix that is found more than once, by way of several originals, stands
/// in the final list exactly once: for each hash among the given commits
/// there is one position in the list, and no other, with that hash.
pub proof fn lemma_each_fix_once(fixes: Seq<CommitView>, k: int)
    requires
        0 <= k < fixes.len(),
    ensures
        exists|i: int|
            0 <= i < unique_fixes(fixes).len() && (#[trigger] unique_fixes(fixes)[i]).hash
                == fixes[k].hash && forall|j: int|
                0 <= j < unique_fixes(fixes).len() && j != i ==> (#[trigger] unique_fixes(
                    fixes,
                )[j]).hash != fixes[k].hash,
{
    let r = unique_fixes(fixes);
    lemma_unique_fixes(fixes);
    assert(has_hash(r, fixes[k].hash));
    let i = choose|i: int| 0 <= i < r.len() && (#[trigger] r[i]).hash == fixes[k].hash;
    assert forall|j: int| 0 <= j < r.len() && j != i implies (#[trigger] r[j]).hash
        != fixes[k].hash by {
        lemma_precedes_irreflexive(r[i].hash);
        if j < i {
            assert(precedes(r[j].hash, r[i].hash));
        } else {
            assert(precedes(r[i].hash, r[j].hash));
        }
    }
}

/// The fixes in the order of their hashes, each hash once.
pub fn dedup_fixes(fixes: &Vec<CommitInfo>) -> (r: Vec<CommitInfo>)
    ensures
        commit_views(r@) == unique_fixes(commit_views(fixes@)),
{
    let mut r: Vec<CommitInfo> = Vec::new();
    let ghost all = commit_views(fixes@);
    let mut i: usize = 0;
    proof {
        assert(all.take(0) =~= Seq::<CommitView>::empty());
        assert(commit_views(r@) =~= Seq::<CommitView>::empty());
    }
    while i < fixes.len()
        invariant
            i <= fixes.len(),
            all == commit_views(fixes@),
            commit_views(r@) == unique_fixes(all.take(i as int)),
        decreases fixes.len() - i,
    {
        let fix = &fixes[i];
        let ghost u = commit_views(r@);
        let mut p: usize = 0;
        while p < r.len() && text_precedes(r[p].hash.as_str(), fix.hash.as_str())
            invariant
                p <= r.len(),
                u == commit_views(r@),
                forall|j: int| 0 <= j < p ==> precedes((#[trigger] u[j]).hash, fix@.hash),
            decreases r.len() - p,
        {
            p += 1;
        }
        proof {
            assert(all.take(i + 1).drop_last() =~= all.take(i as int));
            assert(all.take(i + 1).last() == fix@);
            if p < r.len() {
                assert(u[p as int] == r@[p as int]@);
            }
            lemma_rank_is(u, fix@.hash, p as int);
        }
        if p < r.len() && same_text(r[p].hash.as_str(), fix.hash.as_str()) {
        } else {
            r.insert(p, fix.clone());
            proof {
                assert(commit_views(r@) =~= u.insert(p as int, fix@));
            }
        }
        i += 1;
    }
    proof {
        assert(all.take(fixes.len() as int) =~= all);
    }
    r
}

/// The lines that show the commits `cs`, in order.
pub open spec fn commit_lines(cs: Seq<CommitView>) -> Seq<Seq<char>> {
    Seq::new(cs.len(), |i: int| line_of(cs[i]))
}

/// A commit list that holds the commits `cs` without comments, under the
/// default modeline.
pub open spec fn listing_of(cs: Seq<CommitView>) -> Seq<char> {
    join(seq![default_modeline()] + commit_lines(cs), line_feed()) + line_feed()
}

/// The commit list that shows `commits`, as text to print.
pub fn output_commits_file(commits: &Vec<CommitInfo>) -> (r: String)
    ensures
        r@ == listing_of(commit_views(commits@)),
{
    let mut all_lines: Vec<String> = Vec::new();
    all_lines.push("# vim: ft=gitbackportcommits".to_string());
    let ghost cs = commit_views(commits@);
    let mut i: usize = 0;
    proof {
        assert(texts(all_lines@) =~= seq![default_modeline()] + commit_lines(cs).take(0));
    }
    while i < commits.len()
        invariant
            i <= commits.len(),
            cs == commit_views(commits@),
            texts(all_lines@) == seq![default_modeline()] + commit_lines(cs).take(i as int),
        decreases commits.len() - i,
    {
        let ghost before = texts(all_lines@);
        let line = commits[i].to_line();
        all_lines.push(line);
        proof {
            assert(texts(all_lines@) =~= before.push(line@));
            assert(before.push(line@) =~= seq![default_modeline()] + commit_lines(cs).take(i + 1));
        }
        i += 1;
    }
    proof {
        assert(commit_lines(cs).take(commits.len() as int) =~= commit_lines(cs));
        reveal_strlit("\n");
        assert("\n"@ =~= line_feed());
    }
    let mut content = join_strings(&all_lines, "\n");
    content.append("\n");
    content
}

} // verus!
