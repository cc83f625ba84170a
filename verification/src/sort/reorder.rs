//! Carrying the order of the sorted commits over to their records and to
//! the entries of their commit list.

use crate::commits::{commit_views, entry_views, CommitEntry, CommitInfo, CommitView, EntryView};
use crate::text::{chars_of, hash_matches, hashes_match, texts};
use vstd::prelude::*;
use vstd::seq_lib::to_multiset_insert;
use vstd::string::*;

verus! {

/// Whether two hashes name one commit: one is a prefix of the other.
pub fn hashes_agree(a: &str, b: &str) -> (r: bool)
    ensures
        r == hash_matches(a@, b@),
{
    hashes_match(&chars_of(a), &chars_of(b))
}

/// The first of the commits `cs` that `hash` names, if there is one.
pub open spec fn first_named(hash: Seq<char>, cs: Seq<CommitView>) -> Option<CommitView>
    decreases cs.len(),
{
    if cs.len() == 0 {
        None
    } else if hash_matches(cs[0].hash, hash) {
        Some(cs[0])
    } else {
        first_named(hash, cs.skip(1))
    }
}

/// The record that goes with a sorted hash: that of the first of the
/// commits `infos` that the hash names, under the sorted hash itself.
pub open spec fn record_for(hash: Seq<char>, infos: Seq<CommitView>) -> Option<CommitView> {
    match first_named(hash, infos) {
        Some(c) => Some(CommitView { hash, ..c }),
        None => None,
    }
}

/// The records that go with the sorted hashes, in their order. A hash that
/// names none of `infos` gets none.
pub open spec fn attach(sorted: Seq<Seq<char>>, infos: Seq<CommitView>) -> Seq<CommitView> {
    sorted.filter_map(|h: Seq<char>| record_for(h, infos))
}

fn find_named(hash: &str, cs: &Vec<CommitInfo>) -> (r: Option<usize>)
    ensures
        match r {
            Some(k) => k < cs.len() && first_named(hash@, commit_views(cs@)) == Some(cs@[k as int]@),
            None => first_named(hash@, commit_views(cs@)) is None,
        },
{
    let ghost all = commit_views(cs@);
    let mut k: usize = 0;
    proof {
        assert(all.skip(0) =~= all);
    }
    while k < cs.len()
        invariant
            k <= cs.len(),
            all == commit_views(cs@),
            first_named(hash@, all) == first_named(hash@, all.skip(k as int)),
        decreases cs.len() - k,
    {
        proof {
            assert(all.skip(k as int)[0] == cs@[k as int]@);
            assert(all.skip(k as int).skip(1) =~= all.skip(k + 1));
        }
        if hashes_agree(cs[k].hash.as_str(), hash) {
            return Some(k);
        }
        k += 1;
    }
    None
}

/// The records of the commits in sorted order: for each sorted hash the
/// record of the first given commit that it names, under the sorted hash.
pub fn attach_infos(sorted_hashes: &Vec<String>, infos: &Vec<CommitInfo>) -> (r: Vec<CommitInfo>)
    ensures
        commit_views(r@) == attach(texts(sorted_hashes@), commit_views(infos@)),
{
    let mut r: Vec<CommitInfo> = Vec::new();
    let ghost all = texts(sorted_hashes@);
    let ghost f = |h: Seq<char>| record_for(h, commit_views(infos@));
    let mut i: usize = 0;
    proof {
        assert(commit_views(r@) =~= all.take(0).filter_map(f));
    }
    while i < sorted_hashes.len()
        invariant
            i <= sorted_hashes.len(),
            all == texts(sorted_hashes@),
            f == |h: Seq<char>| record_for(h, commit_views(infos@)),
            commit_views(r@) == all.take(i as int).filter_map(f),
        decreases sorted_hashes.len() - i,
    {
        proof {
            all.lemma_filter_map_take_succ(f, i as int);
        }
        match find_named(sorted_hashes[i].as_str(), infos) {
            Some(k) => {
                let mut info = infos[k].clone();
                info.hash = sorted_hashes[i].clone();
                let ghost before = commit_views(r@);
                r.push(info);
                proof {
                    assert(commit_views(r@) =~= before + seq![info@]);
                }
            },
            None => {
                proof {
                    assert(commit_views(r@) + Seq::<CommitView>::empty() =~= commit_views(r@));
                }
            },
        }
        i += 1;
    }
    proof {
        assert(all.take(sorted_hashes.len() as int) =~= all);
    }
    r
}

/// The rank of an entry that none of the sorted commits names. It is
/// greater than the rank of a named entry unless there are more sorted
/// commits than that.
pub const UNRANKED: usize = 999999;

/// The position of the last of the commits `sorted` that `hash` names, if
/// there is one.
pub open spec fn last_named(hash: Seq<char>, sorted: Seq<CommitView>) -> Option<int>
    decreases sorted.len(),
{
    if sorted.len() == 0 {
        None
    } else if hash_matches(hash, sorted.last().hash) {
        Some(sorted.len() - 1)
    } else {
        last_named(hash, sorted.drop_last())
    }
}

/// The rank by which an entry with the hash `hash` is ordered: the position
/// of the last sorted commit that it names, or `UNRANKED`.
pub open spec fn order_key(hash: Seq<char>, sorted: Seq<CommitView>) -> int {
    match last_named(hash, sorted) {
        Some(i) => i,
        None => UNRANKED as int,
    }
}

/// How many entries at the head of `es` have a rank of at most `key`.
pub open spec fn upper_rank(es: Seq<EntryView>, key: int, sorted: Seq<CommitView>) -> int
    decreases es.len(),
{
    if es.len() > 0 && order_key(es[0].commit.hash, sorted) <= key {
        1 + upper_rank(es.skip(1), key, sorted)
    } else {
        0
    }
}

/// The entries `es` ordered by rank, entries of equal rank in the order in
/// which `es` has them.
pub open spec fn order_by_rank(es: Seq<EntryView>, sorted: Seq<CommitView>) -> Seq<EntryView>
    decreases es.len(),
{
    if es.len() == 0 {
        Seq::empty()
    } else {
        let head = order_by_rank(es.drop_last(), sorted);
        let e = es.last();
        head.insert(upper_rank(head, order_key(e.commit.hash, sorted), sorted), e)
    }
}

/// The entry `e` with the record of the first sorted commit that it names,
/// if there is one.
pub open spec fn refreshed(e: EntryView, sorted: Seq<CommitView>) -> EntryView {
    match first_named(e.commit.hash, sorted) {
        Some(c) => EntryView { commit: c, ..e },
        None => e,
    }
}

/// The entries of a commit list in the order of the sorted commits, each
/// with its comments and with the record of the sorted commit it names.
pub open spec fn reorder(es: Seq<EntryView>, sorted: Seq<CommitView>) -> Seq<EntryView> {
    order_by_rank(es, sorted).map_values(|e: EntryView| refreshed(e, sorted))
}

/// `upper_rank` is the length of the leading run of entries whose rank is
/// at most `key`.
pub proof fn lemma_upper_rank_is(es: Seq<EntryView>, key: int, sorted: Seq<CommitView>, p: int)
    requires
        0 <= p <= es.len(),
        forall|i: int| 0 <= i < p ==> order_key((#[trigger] es[i]).commit.hash, sorted) <= key,
        p == es.len() || order_key(es[p].commit.hash, sorted) > key,
    ensures
        upper_rank(es, key, sorted) == p,
    decreases p,
{
    if p > 0 {
        let t = es.skip(1);
        assert(order_key(es[0].commit.hash, sorted) <= key);
        assert forall|i: int| 0 <= i < p - 1 implies order_key(
            (#[trigger] t[i]).commit.hash,
            sorted,
        ) <= key by {
            assert(t[i] == es[i + 1]);
        }
        lemma_upper_rank_is(t, key, sorted, p - 1);
    }
}

/// The entries that `upper_rank` counts have a rank of at most `key`, and
/// the entry after them has a greater one.
pub proof fn lemma_upper_rank_run(es: Seq<EntryView>, key: int, sorted: Seq<CommitView>)
    ensures
        0 <= upper_rank(es, key, sorted) <= es.len(),
        forall|i: int|
            0 <= i < upper_rank(es, key, sorted) ==> order_key(
                (#[trigger] es[i]).commit.hash,
                sorted,
            ) <= key,
        upper_rank(es, key, sorted) < es.len() ==> order_key(
            es[upper_rank(es, key, sorted)].commit.hash,
            sorted,
        ) > key,
    decreases es.len(),
{
    if es.len() > 0 && order_key(es[0].commit.hash, sorted) <= key {
        let t = es.skip(1);
        lemma_upper_rank_run(t, key, sorted);
        assert forall|i: int| 0 <= i < upper_rank(es, key, sorted) implies order_key(
            (#[trigger] es[i]).commit.hash,
            sorted,
        ) <= key by {
            if i > 0 {
                assert(es[i] == t[i - 1]);
            }
        }
        if upper_rank(es, key, sorted) < es.len() {
            assert(es[upper_rank(es, key, sorted)] == t[upper_rank(t, key, sorted)]);
        }
    }
}

/// Ordering by rank keeps every entry, each as often as it was there, and
/// puts the entries in the order of their ranks.
pub proof fn lemma_order_by_rank(es: Seq<EntryView>, sorted: Seq<CommitView>)
    ensures
        order_by_rank(es, sorted).to_multiset() == es.to_multiset(),
        forall|i: int, j: int|
            0 <= i < j < order_by_rank(es, sorted).len() ==> order_key(
                (#[trigger] order_by_rank(es, sorted)[i]).commit.hash,
                sorted,
            ) <= order_key((#[trigger] order_by_rank(es, sorted)[j]).commit.hash, sorted),
    decreases es.len(),
{
    broadcast use vstd::multiset::group_multiset_axioms;

    if es.len() == 0 {
        assert(order_by_rank(es, sorted) =~= es);
    } else {
        let head = order_by_rank(es.drop_last(), sorted);
        let e = es.last();
        let key = order_key(e.commit.hash, sorted);
        let p = upper_rank(head, key, sorted);
        let r = order_by_rank(es, sorted);
        lemma_order_by_rank(es.drop_last(), sorted);
        lemma_upper_rank_run(head, key, sorted);
        to_multiset_insert(head, p, e);
        assert(es =~= es.drop_last().insert(es.len() - 1, e));
        to_multiset_insert(es.drop_last(), es.len() - 1, e);
        assert forall|i: int, j: int| 0 <= i < j < r.len() implies order_key(
            (#[trigger] r[i]).commit.hash,
            sorted,
        ) <= order_key((#[trigger] r[j]).commit.hash, sorted) by {
            if j < p {
                assert(r[i] == head[i] && r[j] == head[j]);
            } else if j == p {
                assert(r[i] == head[i]);
            } else if i < p {
                assert(r[i] == head[i] && r[j] == head[j - 1]);
                assert(order_key(head[p].commit.hash, sorted) > key);
                if j - 1 > p {
                    assert(order_key(head[p].commit.hash, sorted) <= order_key(
                        head[j - 1].commit.hash,
                        sorted,
                    ));
                }
            } else if i == p {
                assert(r[j] == head[j - 1]);
                if j - 1 > p {
                    assert(order_key(head[p].commit.hash, sorted) <= order_key(
                        head[j - 1].commit.hash,
                        sorted,
                    ));
                }
            } else {
                assert(r[i] == head[i - 1] && r[j] == head[j - 1]);
            }
        }
    }
}

fn rank_of(hash: &str, sorted: &Vec<CommitInfo>) -> (r: usize)
    ensures
        r == order_key(hash@, commit_views(sorted@)),
{
    let ghost all = commit_views(sorted@);
    let mut k: usize = sorted.len();
    proof {
        assert(all.take(k as int) =~= all);
    }
    while k > 0
        invariant
            k <= sorted.len(),
            all == commit_views(sorted@),
            last_named(hash@, all) == last_named(hash@, all.take(k as int)),
        decreases k,
    {
        proof {
            assert(all.take(k as int).last() == sorted@[k - 1]@);
            assert(all.take(k as int).drop_last() =~= all.take(k - 1));
        }
        if hashes_agree(hash, sorted[k - 1].hash.as_str()) {
            return k - 1;
        }
        k -= 1;
    }
    UNRANKED
}

/// Puts the entries of a commit list in the order of the sorted commits.
/// Each entry keeps its comments and takes the record of the sorted commit
/// that it names; entries that name none have the rank `UNRANKED` and keep
/// their order among themselves.
pub fn reorder_entries(entries: &Vec<CommitEntry>, sorted: &Vec<CommitInfo>) -> (r: Vec<
    CommitEntry,
>)
    ensures
        entry_views(r@) == reorder(entry_views(entries@), commit_views(sorted@)),
{
    let ghost es = entry_views(entries@);
    let ghost cs = commit_views(sorted@);
    let mut ordered: Vec<CommitEntry> = Vec::new();
    let mut ranks: Vec<usize> = Vec::new();
    let mut i: usize = 0;
    proof {
        assert(es.take(0) =~= Seq::<EntryView>::empty());
        assert(entry_views(ordered@) =~= Seq::<EntryView>::empty());
    }
    while i < entries.len()
        invariant
            i <= entries.len(),
            es == entry_views(entries@),
            cs == commit_views(sorted@),
            ranks.len() == ordered.len(),
            forall|j: int|
                0 <= j < ordered.len() ==> #[trigger] ranks@[j] == order_key(
                    ordered@[j]@.commit.hash,
                    cs,
                ),
            entry_views(ordered@) == order_by_rank(es.take(i as int), cs),
        decreases entries.len() - i,
    {
        let key = rank_of(entries[i].commit.hash.as_str(), sorted);
        let ghost head = entry_views(ordered@);
        let mut p: usize = 0;
        while p < ranks.len() && ranks[p] <= key
            invariant
                p <= ranks.len(),
                ranks.len() == ordered.len(),
                head == entry_views(ordered@),
                forall|j: int|
                    0 <= j < ordered.len() ==> #[trigger] ranks@[j] == order_key(
                        ordered@[j]@.commit.hash,
                        cs,
                    ),
                forall|j: int| 0 <= j < p ==> order_key((#[trigger] head[j]).commit.hash, cs) <= key,
            decreases ranks.len() - p,
        {
            proof {
                assert(head[p as int] == ordered@[p as int]@);
            }
            p += 1;
        }
        proof {
            if p < ranks.len() {
                assert(head[p as int] == ordered@[p as int]@);
            }
            lemma_upper_rank_is(head, key as int, cs, p as int);
            assert(es.take(i + 1).drop_last() =~= es.take(i as int));
            assert(es.take(i + 1).last() == entries@[i as int]@);
        }
        let entry = entries[i].clone();
        ordered.insert(p, entry);
        ranks.insert(p, key);
        proof {
            assert(entry_views(ordered@) =~= head.insert(p as int, entry@));
        }
        i += 1;
    }
    proof {
        assert(es.take(entries.len() as int) =~= es);
    }
    let ghost placed = entry_views(ordered@);
    let mut r: Vec<CommitEntry> = Vec::new();
    let mut j: usize = 0;
    while j < ordered.len()
        invariant
            j <= ordered.len(),
            r.len() == j,
            placed == entry_views(ordered@),
            cs == commit_views(sorted@),
            forall|k: int| 0 <= k < j ==> (#[trigger] r@[k])@ == refreshed(placed[k], cs),
        decreases ordered.len() - j,
    {
        let mut entry = ordered[j].clone();
        match find_named(entry.commit.hash.as_str(), sorted) {
            Some(k) => {
                entry.commit = sorted[k].clone();
            },
            None => {},
        }
        proof {
            assert(placed[j as int] == ordered@[j as int]@);
        }
        r.push(entry);
        j += 1;
    }
    proof {
        assert(entry_views(r@) =~= reorder(es, cs));
    }
    r
}

} // verus!
