//! Ordering commits by the ancestry of a reference.
//!
//! The caller lists the history of the reference in topological order. The
//! sorter walks that listing once and picks, for each listed commit, the
//! first of the remaining targets that names it. A target names a commit if
//! one of the two identifiers is a prefix of the other, so that short and
//! full hashes can be mixed.

pub mod reorder;
pub mod session;

pub use crate::sort::reorder::{attach_infos, reorder_entries};
pub use crate::sort::session::{command, Args, SortOutcome, SortSession, SortStage};
use crate::text::{
    chars_of, hash_matches, hashes_match, join, join_strings, rows, split_trimmed_lines, string_of,
    strings_of, texts, trimmed_lines,
};
use vstd::prelude::*;
use vstd::seq_lib::{to_multiset_contains, to_multiset_insert, to_multiset_remove};
use vstd::string::*;

verus! {

/// `s` without the repetitions of an earlier item.
pub open spec fn distinct(s: Seq<Seq<char>>) -> Seq<Seq<char>>
    decreases s.len(),
{
    if s.len() == 0 {
        s
    } else {
        let d = distinct(s.drop_last());
        if d.contains(s.last()) {
            d
        } else {
            d.push(s.last())
        }
    }
}

/// The position of the first of `remaining` that names the listed commit
/// `entry`; the length of `remaining` if none does.
pub open spec fn first_match(entry: Seq<char>, remaining: Seq<Seq<char>>) -> int
    decreases remaining.len(),
{
    if remaining.len() == 0 {
        0
    } else if hash_matches(entry, remaining[0]) {
        0
    } else {
        1 + first_match(entry, remaining.skip(1))
    }
}

/// The walk over the listing `feed`: the targets picked, in the order of the
/// listing, and the targets that no listed commit claimed. Each listed commit
/// picks the first remaining target that names it, which then leaves the
/// remaining targets.
pub open spec fn walk(feed: Seq<Seq<char>>, remaining: Seq<Seq<char>>) -> (
    Seq<Seq<char>>,
    Seq<Seq<char>>,
)
    decreases feed.len(),
{
    if feed.len() == 0 {
        (Seq::empty(), remaining)
    } else {
        let k = first_match(feed[0], remaining);
        if k < remaining.len() {
            let (picked, left) = walk(feed.skip(1), remaining.remove(k));
            (seq![remaining[k]] + picked, left)
        } else {
            walk(feed.skip(1), remaining)
        }
    }
}

/// The targets in the order of the listing `history`, or, if some target is
/// named by no listed commit, the targets that are not.
pub open spec fn sort_spec(targets: Seq<Seq<char>>, history: Seq<char>) -> Result<
    Seq<Seq<char>>,
    Seq<Seq<char>>,
> {
    let (picked, left) = walk(trimmed_lines(history), distinct(targets));
    if left.len() == 0 {
        Ok(picked)
    } else {
        Err(left)
    }
}

/// The positions in the listing `feed` of the commits that pick a target,
/// in order: the `k`-th of them picks the `k`-th target of the walk.
pub open spec fn pick_positions(feed: Seq<Seq<char>>, remaining: Seq<Seq<char>>) -> Seq<int>
    decreases feed.len(),
{
    if feed.len() == 0 {
        Seq::empty()
    } else {
        let k = first_match(feed[0], remaining);
        if k < remaining.len() {
            seq![0int] + pick_positions(feed.skip(1), remaining.remove(k)).map_values(
                |p: int| p + 1,
            )
        } else {
            pick_positions(feed.skip(1), remaining).map_values(|p: int| p + 1)
        }
    }
}

/// Why commits could not be put in order.
#[derive(Debug)]
pub enum SortError {
    /// These targets are not in the history of the reference.
    CommitsNotFound(Vec<String>),
    /// The history of the reference could not be listed; git said this.
    ListingFailed(String),
}

/// What a `SortError` holds, as character sequences.
pub ghost enum SortErrorView {
    CommitsNotFound(Seq<Seq<char>>),
    ListingFailed(Seq<char>),
}

impl View for SortError {
    type V = SortErrorView;

    open spec fn view(&self) -> SortErrorView {
        match *self {
            SortError::CommitsNotFound(missing) => SortErrorView::CommitsNotFound(texts(missing@)),
            SortError::ListingFailed(d) => SortErrorView::ListingFailed(d@),
        }
    }
}

/// `s` between double quotes.
pub open spec fn quoted(s: Seq<char>) -> Seq<char> {
    "\""@ + s + "\""@
}

/// The items, each between double quotes, in order.
pub open spec fn all_quoted(items: Seq<Seq<char>>) -> Seq<Seq<char>> {
    Seq::new(items.len(), |i: int| quoted(items[i]))
}

/// The message that the failure `e` shows to the user.
pub open spec fn message_of(e: SortErrorView) -> Seq<char> {
    match e {
        SortErrorView::CommitsNotFound(missing) => "Some commits not found in HEAD history: ["@
            + join(all_quoted(missing), ", "@) + "]"@,
        SortErrorView::ListingFailed(d) => "git rev-list: "@ + d,
    }
}

impl SortError {
    /// The message shown to the user.
    pub fn message(&self) -> (r: String)
        ensures
            r@ == message_of(self@),
    {
        match self {
            SortError::CommitsNotFound(missing) => {
                let mut names: Vec<String> = Vec::new();
                let mut i: usize = 0;
                while i < missing.len()
                    invariant
                        i <= missing.len(),
                        names.len() == i,
                        forall|j: int|
                            0 <= j < i ==> (#[trigger] names@[j])@ == quoted(missing@[j]@),
                    decreases missing.len() - i,
                {
                    let mut name = "\"".to_string();
                    name.append(missing[i].as_str());
                    name.append("\"");
                    names.push(name);
                    i += 1;
                }
                proof {
                    assert(texts(names@) =~= all_quoted(texts(missing@)));
                }
                let mut r = "Some commits not found in HEAD history: [".to_string();
                r.append(join_strings(&names, ", ").as_str());
                r.append("]");
                r
            },
            SortError::ListingFailed(d) => {
                let mut r = "git rev-list: ".to_string();
                r.append(d.as_str());
                r
            },
        }
    }
}

fn position_of(items: &Vec<Vec<char>>, item: &Vec<char>) -> (k: usize)
    ensures
        k <= items.len(),
        k < items.len() ==> items@[k as int]@ == item@,
        k == items.len() ==> !rows(items@).contains(item@),
{
    let mut k: usize = 0;
    while k < items.len()
        invariant
            k <= items.len(),
            forall|j: int| 0 <= j < k ==> rows(items@)[j] != item@,
        decreases items.len() - k,
    {
        if same_chars(&items[k], item) {
            return k;
        }
        k += 1;
    }
    k
}

fn same_chars(a: &Vec<char>, b: &Vec<char>) -> (r: bool)
    ensures
        r == (a@ == b@),
{
    if a.len() != b.len() {
        return false;
    }
    let mut i: usize = 0;
    while i < a.len()
        invariant
            i <= a.len(),
            a.len() == b.len(),
            forall|j: int| 0 <= j < i ==> a@[j] == b@[j],
        decreases a.len() - i,
    {
        if a[i] != b[i] {
            return false;
        }
        i += 1;
    }
    proof {
        assert(a@ =~= b@);
    }
    true
}

fn distinct_targets(targets: &Vec<String>) -> (r: Vec<Vec<char>>)
    ensures
        rows(r@) == distinct(texts(targets@)),
{
    let mut r: Vec<Vec<char>> = Vec::new();
    let mut i: usize = 0;
    let ghost all = texts(targets@);
    proof {
        assert(all.take(0) =~= Seq::<Seq<char>>::empty());
        assert(rows(r@) =~= Seq::<Seq<char>>::empty());
    }
    while i < targets.len()
        invariant
            i <= targets.len(),
            all == texts(targets@),
            rows(r@) == distinct(all.take(i as int)),
        decreases targets.len() - i,
    {
        let item = chars_of(targets[i].as_str());
        proof {
            assert(all.take(i + 1).drop_last() =~= all.take(i as int));
            assert(all.take(i + 1).last() == item@);
        }
        let k = position_of(&r, &item);
        if k == r.len() {
            let ghost before = r@;
            r.push(item);
            proof {
                assert(rows(r@) =~= rows(before).push(item@));
            }
        } else {
            proof {
                assert(rows(r@)[k as int] == item@);
            }
        }
        i += 1;
    }
    proof {
        assert(all.take(targets.len() as int) =~= all);
    }
    r
}

/// Puts the targets `input_commits` in the order in which `history` lists
/// the commits they name. `history` is the listing of the reference's
/// ancestry, one hash per line. Repeated targets count once. Fails, naming
/// them, if some targets are named by no listed commit.
pub fn sort_commits_topologically(input_commits: Vec<String>, history: &str) -> (r: Result<
    Vec<String>,
    SortError,
>)
    ensures
        match r {
            Ok(sorted) => sort_spec(texts(input_commits@), history@) == Ok::<
                Seq<Seq<char>>,
                Seq<Seq<char>>,
            >(texts(sorted@)),
            Err(SortError::CommitsNotFound(missing)) => sort_spec(
                texts(input_commits@),
                history@,
            ) == Err::<Seq<Seq<char>>, Seq<Seq<char>>>(texts(missing@)),
            Err(SortError::ListingFailed(_)) => false,
        },
{
    let feed = split_trimmed_lines(&chars_of(history));
    let mut remaining = distinct_targets(&input_commits);
    let mut sorted: Vec<String> = Vec::new();
    let ghost all = rows(feed@);
    let ghost start = rows(remaining@);
    let mut i: usize = 0;
    proof {
        assert(all.skip(0) =~= all);
        assert(texts(sorted@) + walk(all, start).0 =~= walk(all, start).0);
    }
    while i < feed.len()
        invariant
            i <= feed.len(),
            all == rows(feed@),
            texts(sorted@) + walk(all.skip(i as int), rows(remaining@)).0 == walk(all, start).0,
            walk(all.skip(i as int), rows(remaining@)).1 == walk(all, start).1,
        decreases feed.len() - i,
    {
        let ghost rest = all.skip(i as int);
        let ghost held = rows(remaining@);
        let mut k: usize = 0;
        while k < remaining.len() && !hashes_match(&feed[i], &remaining[k])
            invariant
                k <= remaining.len(),
                i < feed.len(),
                held == rows(remaining@),
                forall|j: int| 0 <= j < k ==> !hash_matches(feed@[i as int]@, #[trigger] held[j]),
            decreases remaining.len() - k,
        {
            k += 1;
        }
        proof {
            assert(rest[0] == feed@[i as int]@);
            assert(rest.skip(1) =~= all.skip(i + 1));
            lemma_first_match_is(rest[0], held, k as int);
        }
        if k < remaining.len() {
            let target = remaining.remove(k);
            let ghost before = texts(sorted@);
            sorted.push(string_of(&target));
            proof {
                assert(rows(remaining@) =~= held.remove(k as int));
                assert(texts(sorted@) =~= before.push(held[k as int]));
                assert(texts(sorted@) + walk(rest.skip(1), rows(remaining@)).0 =~= before + walk(
                    rest,
                    held,
                ).0);
            }
        }
        i += 1;
    }
    proof {
        assert(texts(sorted@) + Seq::<Seq<char>>::empty() =~= texts(sorted@));
    }
    if remaining.len() > 0 {
        Err(SortError::CommitsNotFound(strings_of(&remaining)))
    } else {
        Ok(sorted)
    }
}

/// `first_match` is a position in `remaining`, or its length.
pub proof fn lemma_first_match_bounds(entry: Seq<char>, remaining: Seq<Seq<char>>)
    ensures
        0 <= first_match(entry, remaining) <= remaining.len(),
    decreases remaining.len(),
{
    if remaining.len() > 0 && !hash_matches(entry, remaining[0]) {
        lemma_first_match_bounds(entry, remaining.skip(1));
    }
}

/// `first_match` is the least position of a target that names the entry.
pub proof fn lemma_first_match_is(entry: Seq<char>, remaining: Seq<Seq<char>>, k: int)
    requires
        0 <= k <= remaining.len(),
        forall|j: int| 0 <= j < k ==> !hash_matches(entry, #[trigger] remaining[j]),
        k == remaining.len() || hash_matches(entry, remaining[k]),
    ensures
        first_match(entry, remaining) == k,
    decreases k,
{
    if k > 0 {
        let t = remaining.skip(1);
        assert forall|j: int| 0 <= j < k - 1 implies !hash_matches(entry, #[trigger] t[j]) by {
            assert(t[j] == remaining[j + 1]);
        }
        lemma_first_match_is(entry, t, k - 1);
    }
}

/// Where `first_match` finds a target, that target names the entry.
pub proof fn lemma_first_match_names(entry: Seq<char>, remaining: Seq<Seq<char>>)
    requires
        first_match(entry, remaining) < remaining.len(),
    ensures
        hash_matches(entry, remaining[first_match(entry, remaining)]),
    decreases remaining.len(),
{
    if remaining.len() > 0 && !hash_matches(entry, remaining[0]) {
        lemma_first_match_bounds(entry, remaining.skip(1));
        lemma_first_match_names(entry, remaining.skip(1));
    }
}

/// `distinct` keeps every item once.
pub proof fn lemma_distinct(s: Seq<Seq<char>>)
    ensures
        distinct(s).no_duplicates(),
        forall|t: Seq<char>| distinct(s).contains(t) <==> s.contains(t),
    decreases s.len(),
{
    if s.len() > 0 {
        let head = s.drop_last();
        let d = distinct(head);
        lemma_distinct(head);
        assert(s =~= head.push(s.last()));
        assert forall|t: Seq<char>| distinct(s).contains(t) <==> s.contains(t) by {
            if s.contains(t) {
                let i = choose|i: int| 0 <= i < s.len() && s[i] == t;
                if i < head.len() {
                    assert(head[i] == t);
                    assert(head.contains(t));
                    assert(d.contains(t));
                    let j = choose|j: int| 0 <= j < d.len() && d[j] == t;
                    assert(distinct(s)[j] == t);
                } else {
                    if !d.contains(t) {
                        assert(distinct(s)[d.len() as int] == t);
                    } else {
                        let j = choose|j: int| 0 <= j < d.len() && d[j] == t;
                        assert(distinct(s)[j] == t);
                    }
                }
            }
            if distinct(s).contains(t) {
                let j = choose|j: int| 0 <= j < distinct(s).len() && distinct(s)[j] == t;
                if j < d.len() {
                    assert(d[j] == t);
                    assert(d.contains(t));
                    assert(head.contains(t));
                    let i = choose|i: int| 0 <= i < head.len() && head[i] == t;
                    assert(s[i] == t);
                } else {
                    assert(s[s.len() - 1] == t);
                }
            }
        }
    }
}

/// The walk moves targets from the remaining ones to the picked ones and
/// neither adds nor loses any.
pub proof fn lemma_walk_keeps_targets(feed: Seq<Seq<char>>, remaining: Seq<Seq<char>>)
    ensures
        (walk(feed, remaining).0 + walk(feed, remaining).1).to_multiset()
            == remaining.to_multiset(),
    decreases feed.len(),
{
    broadcast use vstd::multiset::group_multiset_axioms;

    if feed.len() == 0 {
        assert(Seq::<Seq<char>>::empty() + remaining =~= remaining);
    } else {
        let k = first_match(feed[0], remaining);
        lemma_first_match_bounds(feed[0], remaining);
        if k < remaining.len() {
            let rest = remaining.remove(k);
            let (picked, left) = walk(feed.skip(1), rest);
            lemma_walk_keeps_targets(feed.skip(1), rest);
            let tail = picked + left;
            assert(seq![remaining[k]] + picked + left =~= tail.insert(0, remaining[k]));
            to_multiset_insert(tail, 0, remaining[k]);
            to_multiset_remove(remaining, k);
            to_multiset_contains(remaining, remaining[k]);
            assert(remaining.contains(remaining[k]));
            assert(remaining.to_multiset().remove(remaining[k]).insert(remaining[k])
                =~= remaining.to_multiset());
        } else {
            lemma_walk_keeps_targets(feed.skip(1), remaining);
        }
    }
}

/// Where sorting succeeds, its output holds every target once, and nothing
/// else: it is a permutation of the set of targets.
pub proof fn lemma_sorted_is_permutation(
    targets: Seq<Seq<char>>,
    history: Seq<char>,
    sorted: Seq<Seq<char>>,
)
    requires
        sort_spec(targets, history) == Ok::<Seq<Seq<char>>, Seq<Seq<char>>>(sorted),
    ensures
        sorted.no_duplicates(),
        forall|t: Seq<char>| sorted.contains(t) <==> targets.contains(t),
{
    broadcast use vstd::multiset::group_multiset_axioms;

    let d = distinct(targets);
    let feed = trimmed_lines(history);
    lemma_distinct(targets);
    lemma_walk_keeps_targets(feed, d);
    assert(walk(feed, d).1 =~= Seq::<Seq<char>>::empty());
    assert(sorted + walk(feed, d).1 =~= sorted);
    assert(sorted.to_multiset() == d.to_multiset());
    d.lemma_multiset_has_no_duplicates();
    sorted.lemma_multiset_has_no_duplicates_conv();
    assert forall|t: Seq<char>| sorted.contains(t) <==> targets.contains(t) by {
        to_multiset_contains(sorted, t);
        to_multiset_contains(d, t);
    }
}

/// The walk's output follows the listing: the commits that pick its targets
/// stand in the listing in the order of the output, and each of them names
/// the target it picks.
pub proof fn lemma_walk_follows_feed(feed: Seq<Seq<char>>, remaining: Seq<Seq<char>>)
    ensures
        pick_positions(feed, remaining).len() == walk(feed, remaining).0.len(),
        forall|k: int|
            0 <= k < walk(feed, remaining).0.len() ==> {
                let p = #[trigger] pick_positions(feed, remaining)[k];
                0 <= p < feed.len() && hash_matches(feed[p], walk(feed, remaining).0[k])
            },
        forall|j: int, k: int|
            0 <= j < k < walk(feed, remaining).0.len() ==> pick_positions(feed, remaining)[j]
                < pick_positions(feed, remaining)[k],
    decreases feed.len(),
{
    if feed.len() > 0 {
        let k0 = first_match(feed[0], remaining);
        lemma_first_match_bounds(feed[0], remaining);
        let tail = feed.skip(1);
        if k0 < remaining.len() {
            let rest = remaining.remove(k0);
            lemma_walk_follows_feed(tail, rest);
            lemma_first_match_names(feed[0], remaining);
            let inner = pick_positions(tail, rest);
            let pos = pick_positions(feed, remaining);
            let picked = walk(feed, remaining).0;
            assert forall|k: int| 0 <= k < picked.len() implies {
                let p = #[trigger] pos[k];
                0 <= p < feed.len() && hash_matches(feed[p], picked[k])
            } by {
                if k > 0 {
                    assert(pos[k] == inner[k - 1] + 1);
                    assert(tail[inner[k - 1]] == feed[inner[k - 1] + 1]);
                    assert(picked[k] == walk(tail, rest).0[k - 1]);
                }
            }
            assert forall|j: int, k: int| 0 <= j < k < picked.len() implies pos[j] < pos[k] by {
                assert(pos[k] == inner[k - 1] + 1);
                if j > 0 {
                    assert(pos[j] == inner[j - 1] + 1);
                }
            }
        } else {
            lemma_walk_follows_feed(tail, remaining);
            let inner = pick_positions(tail, remaining);
            let pos = pick_positions(feed, remaining);
            let picked = walk(feed, remaining).0;
            assert forall|k: int| 0 <= k < picked.len() implies {
                let p = #[trigger] pos[k];
                0 <= p < feed.len() && hash_matches(feed[p], picked[k])
            } by {
                assert(pos[k] == inner[k] + 1);
                assert(tail[inner[k]] == feed[inner[k] + 1]);
            }
            assert forall|j: int, k: int| 0 <= j < k < picked.len() implies pos[j] < pos[k] by {
                assert(pos[k] == inner[k] + 1);
                assert(pos[j] == inner[j] + 1);
            }
        }
    }
}

/// Where sorting succeeds, the order of its output is that of the listing:
/// of two targets in the output, the one that comes first is named by a
/// commit that the listing shows before the commit that names the other.
pub proof fn lemma_sorted_follows_history(
    targets: Seq<Seq<char>>,
    history: Seq<char>,
    sorted: Seq<Seq<char>>,
)
    requires
        sort_spec(targets, history) == Ok::<Seq<Seq<char>>, Seq<Seq<char>>>(sorted),
    ensures
        ({
            let feed = trimmed_lines(history);
            let pos = pick_positions(feed, distinct(targets));
            &&& pos.len() == sorted.len()
            &&& forall|k: int|
                0 <= k < sorted.len() ==> 0 <= #[trigger] pos[k] < feed.len() && hash_matches(
                    feed[pos[k]],
                    sorted[k],
                )
            &&& forall|j: int, k: int| 0 <= j < k < sorted.len() ==> pos[j] < pos[k]
        }),
{
    lemma_walk_follows_feed(trimmed_lines(history), distinct(targets));
}

} // verus!
