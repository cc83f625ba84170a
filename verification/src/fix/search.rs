//! Collecting the fixes of an original commit that are not applied yet.

use crate::commits::{commit_views, CommitInfo, CommitView};
use crate::enrich::{
    enriched_in, lemma_enrichment_answer, lemma_enrichment_outcome, lemma_enrichment_progress,
    EnrichStage, Enrichment, EnrichmentView,
};
use crate::fix::applied::{
    applied_in, is_commit_already_applied, lemma_check_answer, lemma_check_progress, AppliedCheck,
    AppliedCheckView, AppliedStage,
};
use crate::fix::queries::{concat, fixes_pattern, range, range_between, shorten};
use crate::text::{pop_front, texts};
use crate::vcs::{hits, opt_query, Query, QueryView, Reply, ReplyView};
use vstd::prelude::*;
use vstd::string::*;

verus! {

/// What the search for the fixes of an original waits for.
#[derive(Debug)]
pub enum FixStage {
    /// The commits after the original that declare to fix it.
    Hits,
    /// An answer to the enrichment of one such commit.
    Enriching(Enrichment),
    /// An answer to the check whether that commit is applied already.
    Checking(AppliedCheck),
    /// Nothing: the fixes are found.
    Done,
}

/// What a `FixStage` holds, as character sequences.
pub ghost enum FixStageView {
    Hits,
    Enriching(EnrichmentView),
    Checking(AppliedCheckView),
    Done,
}

impl View for FixStage {
    type V = FixStageView;

    open spec fn view(&self) -> FixStageView {
        match *self {
            FixStage::Hits => FixStageView::Hits,
            FixStage::Enriching(e) => FixStageView::Enriching(e@),
            FixStage::Checking(c) => FixStageView::Checking(c@),
            FixStage::Done => FixStageView::Done,
        }
    }
}

/// The search for the fixes of an original commit: the commits between the
/// original and the tip of the reference branch whose message declares to
/// fix it, each enriched, without those that the current branch has
/// already.
#[derive(Debug)]
pub struct FixSearch {
    /// The original commit.
    pub original: String,
    /// The branch that is searched.
    pub ref_branch: String,
    /// The commit after which the current branch is searched.
    pub base: String,
    /// The declared fixes that are still to be looked at.
    pub rest: Vec<String>,
    /// The fixes found so far that are not applied yet.
    pub fixes: Vec<CommitInfo>,
    /// What the search waits for.
    pub stage: FixStage,
}

/// What a `FixSearch` holds, as character sequences.
pub ghost struct FixSearchView {
    pub original: Seq<char>,
    pub ref_branch: Seq<char>,
    pub base: Seq<char>,
    pub rest: Seq<Seq<char>>,
    pub fixes: Seq<CommitView>,
    pub stage: FixStageView,
}

impl View for FixSearch {
    type V = FixSearchView;

    open spec fn view(&self) -> FixSearchView {
        FixSearchView {
            original: self.original@,
            ref_branch: self.ref_branch@,
            base: self.base@,
            rest: texts(self.rest@),
            fixes: commit_views(self.fixes@),
            stage: self.stage@,
        }
    }
}

/// A commit of which only the hash is known.
pub open spec fn bare(hash: Seq<char>) -> CommitView {
    CommitView { hash, change_id: None, title: None }
}

impl FixSearchView {
    /// The search for the fixes of `original` before any answer.
    pub open spec fn begin(original: Seq<char>, ref_branch: Seq<char>, base: Seq<char>)
        -> FixSearchView {
        FixSearchView {
            original,
            ref_branch,
            base,
            rest: Seq::empty(),
            fixes: Seq::empty(),
            stage: FixStageView::Hits,
        }
    }

    /// The question that the search waits for.
    pub open spec fn pending(self) -> Option<QueryView> {
        match self.stage {
            FixStageView::Hits => Some(
                QueryView::SearchByMessage {
                    pattern: fixes_pattern(self.original),
                    range: range_between(self.original, self.ref_branch),
                },
            ),
            FixStageView::Enriching(e) => e.pending(),
            FixStageView::Checking(c) => c.pending(),
            FixStageView::Done => None,
        }
    }

    /// The search with `fixes` as its fixes so far, turning to the first of
    /// the declared fixes `queue`, or done if there is none.
    pub open spec fn turn_to(self, queue: Seq<Seq<char>>, fixes: Seq<CommitView>)
        -> FixSearchView {
        if queue.len() == 0 {
            FixSearchView { rest: queue, fixes, stage: FixStageView::Done, ..self }
        } else {
            FixSearchView {
                rest: queue.skip(1),
                fixes,
                stage: FixStageView::Enriching(EnrichmentView::begin(bare(queue[0]))),
                ..self
            }
        }
    }

    /// The search after the answer to its pending question. A declared fix
    /// is enriched first and then checked against the current branch; it
    /// joins the fixes unless it is applied already.
    pub open spec fn resume(self, reply: ReplyView) -> FixSearchView {
        match self.stage {
            FixStageView::Hits => self.turn_to(hits(reply), self.fixes),
            FixStageView::Enriching(e) => {
                let e = e.resume(reply);
                if e.stage == EnrichStage::Done {
                    FixSearchView {
                        stage: FixStageView::Checking(
                            AppliedCheckView::begin(e.commit, self.base),
                        ),
                        ..self
                    }
                } else {
                    FixSearchView { stage: FixStageView::Enriching(e), ..self }
                }
            },
            FixStageView::Checking(c) => {
                let c = c.resume(reply);
                match c.verdict() {
                    Some(applied) => self.turn_to(
                        self.rest,
                        if applied {
                            self.fixes
                        } else {
                            self.fixes.push(c.commit)
                        },
                    ),
                    None => FixSearchView { stage: FixStageView::Checking(c), ..self },
                }
            },
            FixStageView::Done => self,
        }
    }
}

/// The commit `c` as a list of fixes to collect in the repository `repo`:
/// none if the current branch, which left the reference branch at `base`,
/// has it already.
pub open spec fn unless_applied(
    c: CommitView,
    base: Seq<char>,
    repo: spec_fn(QueryView) -> ReplyView,
) -> Seq<CommitView> {
    if applied_in(c, base, repo) {
        Seq::empty()
    } else {
        seq![c]
    }
}

/// The fixes to collect among the commits `hits`, in order: each of them
/// enriched from the repository `repo`, without those that the current
/// branch has already.
pub open spec fn fixes_among(
    hits: Seq<Seq<char>>,
    base: Seq<char>,
    repo: spec_fn(QueryView) -> ReplyView,
) -> Seq<CommitView>
    decreases hits.len(),
{
    if hits.len() == 0 {
        Seq::empty()
    } else {
        unless_applied(enriched_in(bare(hits[0]), repo), base, repo) + fixes_among(
            hits.skip(1),
            base,
            repo,
        )
    }
}

/// The fixes of `original` in the repository `repo` that are not applied
/// yet: the commits between the original and the tip of `ref_branch` whose
/// message declares to fix the original, named by its short hash, each
/// enriched, without those that the current branch has already.
pub open spec fn fixes_in(
    original: Seq<char>,
    ref_branch: Seq<char>,
    base: Seq<char>,
    repo: spec_fn(QueryView) -> ReplyView,
) -> Seq<CommitView> {
    fixes_among(
        hits(
            repo(
                QueryView::SearchByMessage {
                    pattern: fixes_pattern(original),
                    range: range_between(original, ref_branch),
                },
            ),
        ),
        base,
        repo,
    )
}

impl FixSearchView {
    /// The search after the repository `repo` has answered its pending
    /// question; as it is, if it waits for none.
    pub open spec fn answered(self, repo: spec_fn(QueryView) -> ReplyView) -> FixSearchView {
        match self.pending() {
            Some(q) => self.resume(repo(q)),
            None => self,
        }
    }

    /// The search after `repo` has answered `steps` questions in a row.
    pub open spec fn run(self, repo: spec_fn(QueryView) -> ReplyView, steps: nat) -> FixSearchView
        decreases steps,
    {
        if steps == 0 {
            self
        } else {
            self.answered(repo).run(repo, (steps - 1) as nat)
        }
    }

    /// The fixes that the search ends with in the repository `repo`.
    pub open spec fn outcome(self, repo: spec_fn(QueryView) -> ReplyView) -> Seq<CommitView> {
        let later = fixes_among(self.rest, self.base, repo);
        match self.stage {
            FixStageView::Hits => self.fixes + fixes_in(
                self.original,
                self.ref_branch,
                self.base,
                repo,
            ),
            FixStageView::Enriching(e) => self.fixes + unless_applied(
                e.outcome(repo),
                self.base,
                repo,
            ) + later,
            FixStageView::Checking(c) => self.fixes + (if c.outcome(repo) {
                Seq::empty()
            } else {
                seq![c.commit]
            }) + later,
            FixStageView::Done => self.fixes,
        }
    }
}

proof fn lemma_search_turn(
    f: FixSearchView,
    queue: Seq<Seq<char>>,
    fixes: Seq<CommitView>,
    repo: spec_fn(QueryView) -> ReplyView,
)
    ensures
        f.turn_to(queue, fixes).outcome(repo) == fixes + fixes_among(queue, f.base, repo),
{
    if queue.len() == 0 {
        assert(fixes + Seq::<CommitView>::empty() =~= fixes);
    } else {
        lemma_enrichment_outcome(bare(queue[0]), repo, 0);
        assert(fixes + unless_applied(enriched_in(bare(queue[0]), repo), f.base, repo)
            + fixes_among(queue.skip(1), f.base, repo) =~= fixes + fixes_among(
            queue,
            f.base,
            repo,
        ));
    }
}

/// An answer of the repository does not change what a search for fixes
/// ends with.
pub proof fn lemma_search_answer(f: FixSearchView, repo: spec_fn(QueryView) -> ReplyView)
    ensures
        f.answered(repo).outcome(repo) == f.outcome(repo),
        f.answered(repo).original == f.original,
        f.stage is Done ==> f.answered(repo) == f,
{
    match f.stage {
        FixStageView::Hits => {
            let q = f.pending()->0;
            lemma_search_turn(f, hits(repo(q)), f.fixes, repo);
        },
        FixStageView::Enriching(e) => {
            lemma_enrichment_answer(e, repo);
        },
        FixStageView::Checking(c) => {
            lemma_check_answer(c, repo);
            if c.pending() is Some {
                let c2 = c.answered(repo);
                if c2.verdict() is Some {
                    let applied = c2.verdict()->0;
                    let fixes = if applied {
                        f.fixes
                    } else {
                        f.fixes.push(c2.commit)
                    };
                    lemma_search_turn(f, f.rest, fixes, repo);
                    assert(f.fixes + seq![c.commit] =~= f.fixes.push(c.commit));
                    assert(f.fixes + Seq::<CommitView>::empty() =~= f.fixes);
                }
            }
        },
        FixStageView::Done => {},
    }
}

/// However many answers a search for fixes takes, what it ends with stays
/// the same.
pub proof fn lemma_search_run(f: FixSearchView, repo: spec_fn(QueryView) -> ReplyView, steps: nat)
    ensures
        f.run(repo, steps).outcome(repo) == f.outcome(repo),
        f.run(repo, steps).original == f.original,
    decreases steps,
{
    if steps > 0 {
        lemma_search_answer(f, repo);
        lemma_search_run(f.answered(repo), repo, (steps - 1) as nat);
    }
}

/// The search for fixes in a repository: once the search for the fixes of
/// `original` is done, however many answers that took, it has collected
/// the fixes of `original` in the repository that are not applied yet.
pub proof fn lemma_search_outcome(
    original: Seq<char>,
    ref_branch: Seq<char>,
    base: Seq<char>,
    repo: spec_fn(QueryView) -> ReplyView,
    steps: nat,
)
    ensures
        FixSearchView::begin(original, ref_branch, base).outcome(repo) == fixes_in(
            original,
            ref_branch,
            base,
            repo,
        ),
        FixSearchView::begin(original, ref_branch, base).run(repo, steps).stage is Done
            ==> FixSearchView::begin(original, ref_branch, base).run(repo, steps).fixes
            == fixes_in(original, ref_branch, base, repo),
{
    lemma_search_run(FixSearchView::begin(original, ref_branch, base), repo, steps);
    assert(Seq::<CommitView>::empty() + fixes_in(original, ref_branch, base, repo) =~= fixes_in(
        original,
        ref_branch,
        base,
        repo,
    ));
}

impl FixSearchView {
    /// Whether the search is in order: where it waits for an answer to an
    /// enrichment or a check, that one is not over.
    pub open spec fn is_sound(self) -> bool {
        match self.stage {
            FixStageView::Enriching(e) => e.stage != EnrichStage::Done,
            FixStageView::Checking(c) => c.verdict() is None,
            _ => true,
        }
    }

    /// The number of answers that the search can still take in the
    /// repository `repo`: at most seven for each declared fix.
    pub open spec fn budget(self, repo: spec_fn(QueryView) -> ReplyView) -> nat {
        match self.stage {
            FixStageView::Hits => 1 + 7 * hits(
                repo(
                    QueryView::SearchByMessage {
                        pattern: fixes_pattern(self.original),
                        range: range_between(self.original, self.ref_branch),
                    },
                ),
            ).len(),
            FixStageView::Enriching(e) => e.budget() + 4 + 7 * self.rest.len(),
            FixStageView::Checking(c) => c.budget() + 7 * self.rest.len(),
            FixStageView::Done => 0,
        }
    }
}

/// Every answer brings a search for fixes closer to its end, and leaves it
/// in order.
pub proof fn lemma_search_progress(f: FixSearchView, repo: spec_fn(QueryView) -> ReplyView)
    requires
        f.is_sound(),
        !(f.stage is Done),
    ensures
        f.answered(repo).is_sound(),
        f.answered(repo).budget(repo) < f.budget(repo),
        f.answered(repo).ref_branch == f.ref_branch,
        f.answered(repo).base == f.base,
{
    match f.stage {
        FixStageView::Enriching(e) => {
            lemma_enrichment_progress(e, repo);
        },
        FixStageView::Checking(c) => {
            lemma_check_progress(c, repo);
        },
        _ => {},
    }
}

/// The search for fixes ends: in any repository, a search that is in order
/// is done once the repository has answered as often as the search's
/// budget says, or more often.
pub proof fn lemma_search_end(f: FixSearchView, repo: spec_fn(QueryView) -> ReplyView, steps: nat)
    requires
        f.is_sound(),
        steps >= f.budget(repo),
    ensures
        f.run(repo, steps).stage is Done,
    decreases steps,
{
    if steps > 0 {
        if !(f.stage is Done) {
            lemma_search_progress(f, repo);
        }
        lemma_search_end(f.answered(repo), repo, (steps - 1) as nat);
    }
}

impl FixSearch {
    /// The question to ask next; none once the fixes are found.
    pub fn pending(&self) -> (q: Option<Query>)
        ensures
            opt_query(q) == self@.pending(),
    {
        match &self.stage {
            FixStage::Hits => Some(
                Query::SearchByMessage {
                    pattern: concat("Fixes: ", shorten(self.original.as_str()).as_str()),
                    range: range(self.original.as_str(), self.ref_branch.as_str()),
                },
            ),
            FixStage::Enriching(e) => e.pending(),
            FixStage::Checking(c) => c.pending(),
            FixStage::Done => None,
        }
    }

    fn advance(self) -> (r: Self)
        ensures
            r@ == self@.turn_to(self@.rest, self@.fixes),
    {
        let (first, rest) = pop_front(self.rest);
        match first {
            Some(hit) => FixSearch {
                rest,
                stage: FixStage::Enriching(Enrichment::begin(CommitInfo::from_hash(hit))),
                ..self
            },
            None => {
                proof {
                    assert(texts(rest@) =~= self@.rest);
                }
                FixSearch { rest, stage: FixStage::Done, ..self }
            },
        }
    }

    /// Takes the answer to the pending question.
    pub fn resume(self, reply: &Reply) -> (r: Self)
        ensures
            r@ == self@.resume(reply@),
    {
        match self.stage {
            FixStage::Hits => {
                let search = FixSearch { rest: reply.hits(), stage: FixStage::Hits, ..self };
                search.advance()
            },
            FixStage::Enriching(e) => {
                let e = e.resume(reply);
                let stage = match e.stage {
                    EnrichStage::Done => FixStage::Checking(
                        is_commit_already_applied(e.commit, self.base.as_str()),
                    ),
                    _ => FixStage::Enriching(e),
                };
                FixSearch { stage, ..self }
            },
            FixStage::Checking(c) => {
                let c = c.resume(reply);
                match c.stage {
                    AppliedStage::Decided(applied) => {
                        let mut fixes = self.fixes;
                        if !applied {
                            let ghost before = commit_views(fixes@);
                            fixes.push(c.commit);
                            proof {
                                assert(commit_views(fixes@) =~= before.push(c.commit@));
                            }
                        }
                        let search = FixSearch { fixes, stage: FixStage::Done, ..self };
                        search.advance()
                    },
                    _ => FixSearch { stage: FixStage::Checking(c), ..self },
                }
            },
            FixStage::Done => FixSearch { stage: FixStage::Done, ..self },
        }
    }
}

/// Starts the search for the fixes of `original_commit` on `ref_branch`
/// that the current branch, which left it at `base`, does not have yet.
pub fn find_fixes_for_commit(original_commit: &str, ref_branch: &str, base: &str) -> (r: FixSearch)
    ensures
        r@ == FixSearchView::begin(original_commit@, ref_branch@, base@),
{
    let r = FixSearch {
        original: original_commit.to_string(),
        ref_branch: ref_branch.to_string(),
        base: base.to_string(),
        rest: Vec::new(),
        fixes: Vec::new(),
        stage: FixStage::Hits,
    };
    proof {
        assert(texts(r.rest@) =~= Seq::<Seq<char>>::empty());
        assert(commit_views(r.fixes@) =~= Seq::<CommitView>::empty());
    }
    r
}

} // verus!
