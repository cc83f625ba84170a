//! Checking whether a fix is already applied on the current branch.

use crate::commits::{CommitInfo, CommitView};
use crate::fix::queries::{
    change_id_pattern, cherry_pick_pattern, concat, head, range, range_between, short_hash, shorten,
};
use crate::vcs::{has_hits, opt_query, Query, QueryView, Reply, ReplyView};
use vstd::prelude::*;
use vstd::string::*;

verus! {

/// What the check of a fix against the current branch waits for.
#[derive(Debug)]
pub enum AppliedStage {
    /// Whether the commit is an ancestor of the working head.
    Ancestry,
    /// The commits since the base that carry this Change-Id, which is the
    /// commit's own.
    SameChange(String),
    /// The commits since the base that say they were cherry-picked from the
    /// commit, named by its hash.
    PickedFull,
    /// The same, the commit named by its short hash.
    PickedShort,
    /// Nothing: the check has found the commit applied, or not.
    Decided(bool),
}

/// What an `AppliedStage` holds, as character sequences.
pub ghost enum AppliedStageView {
    Ancestry,
    SameChange(Seq<char>),
    PickedFull,
    PickedShort,
    Decided(bool),
}

impl View for AppliedStage {
    type V = AppliedStageView;

    open spec fn view(&self) -> AppliedStageView {
        match *self {
            AppliedStage::Ancestry => AppliedStageView::Ancestry,
            AppliedStage::SameChange(id) => AppliedStageView::SameChange(id@),
            AppliedStage::PickedFull => AppliedStageView::PickedFull,
            AppliedStage::PickedShort => AppliedStageView::PickedShort,
            AppliedStage::Decided(b) => AppliedStageView::Decided(b),
        }
    }
}

/// The check whether a commit of the reference branch is already applied on
/// the current branch. It is, if it is an ancestor of the working head, if a
/// commit since the base carries its Change-Id, or if a commit since the
/// base says it was cherry-picked from it.
#[derive(Debug)]
pub struct AppliedCheck {
    /// The commit that is checked.
    pub commit: CommitInfo,
    /// The commit after which the current branch is searched.
    pub base: String,
    /// What the check waits for.
    pub stage: AppliedStage,
}

/// What an `AppliedCheck` holds, as character sequences.
pub ghost struct AppliedCheckView {
    pub commit: CommitView,
    pub base: Seq<char>,
    pub stage: AppliedStageView,
}

impl View for AppliedCheck {
    type V = AppliedCheckView;

    open spec fn view(&self) -> AppliedCheckView {
        AppliedCheckView { commit: self.commit@, base: self.base@, stage: self.stage@ }
    }
}

impl AppliedCheckView {
    /// The check of `commit` before any answer.
    pub open spec fn begin(commit: CommitView, base: Seq<char>) -> AppliedCheckView {
        AppliedCheckView { commit, base, stage: AppliedStageView::Ancestry }
    }

    /// The question that the check waits for.
    pub open spec fn pending(self) -> Option<QueryView> {
        let since_base = range_between(self.base, head());
        match self.stage {
            AppliedStageView::Ancestry => Some(
                QueryView::IsAncestor { candidate: self.commit.hash, of_ref: head() },
            ),
            AppliedStageView::SameChange(id) => Some(
                QueryView::SearchByMessage { pattern: change_id_pattern(id), range: since_base },
            ),
            AppliedStageView::PickedFull => Some(
                QueryView::SearchByMessage {
                    pattern: cherry_pick_pattern(self.commit.hash),
                    range: since_base,
                },
            ),
            AppliedStageView::PickedShort => Some(
                QueryView::SearchByMessage {
                    pattern: cherry_pick_pattern(short_hash(self.commit.hash)),
                    range: since_base,
                },
            ),
            AppliedStageView::Decided(_) => None,
        }
    }

    /// The check after the answer to its pending question. A positive
    /// answer decides it; a negative one leads to the next question, and
    /// after the last to the verdict that the commit is not applied.
    pub open spec fn resume(self, reply: ReplyView) -> AppliedCheckView {
        let stage = match self.stage {
            AppliedStageView::Ancestry => if reply.success {
                AppliedStageView::Decided(true)
            } else {
                match self.commit.change_id {
                    Some(id) => AppliedStageView::SameChange(id),
                    None => AppliedStageView::PickedFull,
                }
            },
            AppliedStageView::SameChange(_) => if has_hits(reply) {
                AppliedStageView::Decided(true)
            } else {
                AppliedStageView::PickedFull
            },
            AppliedStageView::PickedFull => if has_hits(reply) {
                AppliedStageView::Decided(true)
            } else {
                AppliedStageView::PickedShort
            },
            AppliedStageView::PickedShort => AppliedStageView::Decided(has_hits(reply)),
            AppliedStageView::Decided(b) => AppliedStageView::Decided(b),
        };
        AppliedCheckView { stage, ..self }
    }

    /// Whether the check has found the commit applied; none while it waits.
    pub open spec fn verdict(self) -> Option<bool> {
        match self.stage {
            AppliedStageView::Decided(b) => Some(b),
            _ => None,
        }
    }
}

/// Whether the repository `repo` shows the commit `c` as applied on the
/// current branch, which left the reference branch at `base`: `c` is an
/// ancestor of the head, or has a Change-Id that a commit since the base
/// carries, or a commit since the base names it, in full or in short, as
/// cherry-picked.
pub open spec fn applied_in(
    c: CommitView,
    base: Seq<char>,
    repo: spec_fn(QueryView) -> ReplyView,
) -> bool {
    ||| repo(QueryView::IsAncestor { candidate: c.hash, of_ref: head() }).success
    ||| c.change_id matches Some(id) && carried_in(change_id_pattern(id), base, repo)
    ||| picked_in(c.hash, base, repo)
}

/// Whether the repository shows a commit since `base` whose message holds
/// `pattern`.
pub open spec fn carried_in(
    pattern: Seq<char>,
    base: Seq<char>,
    repo: spec_fn(QueryView) -> ReplyView,
) -> bool {
    has_hits(repo(QueryView::SearchByMessage { pattern, range: range_between(base, head()) }))
}

/// Whether the repository shows a commit since `base` that names `hash`, in
/// full or in short, as cherry-picked.
pub open spec fn picked_in(
    hash: Seq<char>,
    base: Seq<char>,
    repo: spec_fn(QueryView) -> ReplyView,
) -> bool {
    carried_in(cherry_pick_pattern(hash), base, repo) || carried_in(
        cherry_pick_pattern(short_hash(hash)),
        base,
        repo,
    )
}

impl AppliedCheckView {
    /// The check after the repository `repo` has answered its pending
    /// question; as it is, if it waits for none.
    pub open spec fn answered(self, repo: spec_fn(QueryView) -> ReplyView) -> AppliedCheckView {
        match self.pending() {
            Some(q) => self.resume(repo(q)),
            None => self,
        }
    }

    /// The check after `repo` has answered `steps` questions in a row.
    pub open spec fn run(self, repo: spec_fn(QueryView) -> ReplyView, steps: nat)
        -> AppliedCheckView
        decreases steps,
    {
        if steps == 0 {
            self
        } else {
            self.answered(repo).run(repo, (steps - 1) as nat)
        }
    }

    /// The verdict that the check ends with in the repository `repo`.
    pub open spec fn outcome(self, repo: spec_fn(QueryView) -> ReplyView) -> bool {
        match self.stage {
            AppliedStageView::Ancestry => applied_in(self.commit, self.base, repo),
            AppliedStageView::SameChange(id) => carried_in(change_id_pattern(id), self.base, repo)
                || picked_in(self.commit.hash, self.base, repo),
            AppliedStageView::PickedFull => picked_in(self.commit.hash, self.base, repo),
            AppliedStageView::PickedShort => carried_in(
                cherry_pick_pattern(short_hash(self.commit.hash)),
                self.base,
                repo,
            ),
            AppliedStageView::Decided(b) => b,
        }
    }
}

/// An answer of the repository does not change what a check ends with, nor
/// the commit that is checked.
pub proof fn lemma_check_answer(k: AppliedCheckView, repo: spec_fn(QueryView) -> ReplyView)
    ensures
        k.answered(repo).outcome(repo) == k.outcome(repo),
        k.answered(repo).commit == k.commit,
        k.answered(repo).base == k.base,
        k.verdict() is Some ==> k.answered(repo) == k,
        k.verdict() is None ==> k.pending() is Some,
{
}

/// However many answers a check takes, what it ends with stays the same.
pub proof fn lemma_check_run(
    k: AppliedCheckView,
    repo: spec_fn(QueryView) -> ReplyView,
    steps: nat,
)
    ensures
        k.run(repo, steps).outcome(repo) == k.outcome(repo),
        k.run(repo, steps).commit == k.commit,
    decreases steps,
{
    if steps > 0 {
        lemma_check_answer(k, repo);
        lemma_check_run(k.answered(repo), repo, (steps - 1) as nat);
    }
}

/// The check in a repository: once the check of `c` is decided, however
/// many answers that took, the verdict is whether the repository shows `c`
/// as applied. Four answers decide every check.
pub proof fn lemma_check_outcome(
    c: CommitView,
    base: Seq<char>,
    repo: spec_fn(QueryView) -> ReplyView,
    steps: nat,
)
    ensures
        AppliedCheckView::begin(c, base).run(repo, steps).verdict() matches Some(applied)
            ==> applied == applied_in(c, base, repo),
        AppliedCheckView::begin(c, base).run(repo, 4).verdict() is Some,
{
    lemma_check_run(AppliedCheckView::begin(c, base), repo, steps);
    reveal_with_fuel(AppliedCheckView::run, 5);
}

impl AppliedCheckView {
    /// The number of answers that the check can still take.
    pub open spec fn budget(self) -> nat {
        match self.stage {
            AppliedStageView::Ancestry => 4,
            AppliedStageView::SameChange(_) => 3,
            AppliedStageView::PickedFull => 2,
            AppliedStageView::PickedShort => 1,
            AppliedStageView::Decided(_) => 0,
        }
    }
}

/// Every answer brings a check closer to its verdict.
pub proof fn lemma_check_progress(k: AppliedCheckView, repo: spec_fn(QueryView) -> ReplyView)
    requires
        k.verdict() is None,
    ensures
        k.answered(repo).budget() < k.budget(),
{
}

impl AppliedCheck {
    fn since_base(&self) -> (r: String)
        ensures
            r@ == range_between(self.base@, head()),
    {
        range(self.base.as_str(), "HEAD")
    }

    /// The question to ask next; none once the check is decided.
    pub fn pending(&self) -> (q: Option<Query>)
        ensures
            opt_query(q) == self@.pending(),
    {
        match &self.stage {
            AppliedStage::Ancestry => Some(
                Query::IsAncestor {
                    candidate: self.commit.hash.clone(),
                    of_ref: "HEAD".to_string(),
                },
            ),
            AppliedStage::SameChange(id) => Some(
                Query::SearchByMessage {
                    pattern: concat("Change-Id: ", id.as_str()),
                    range: self.since_base(),
                },
            ),
            AppliedStage::PickedFull => Some(
                Query::SearchByMessage {
                    pattern: concat("cherry picked from commit ", self.commit.hash.as_str()),
                    range: self.since_base(),
                },
            ),
            AppliedStage::PickedShort => Some(
                Query::SearchByMessage {
                    pattern: concat(
                        "cherry picked from commit ",
                        shorten(self.commit.hash.as_str()).as_str(),
                    ),
                    range: self.since_base(),
                },
            ),
            AppliedStage::Decided(_) => None,
        }
    }

    /// Takes the answer to the pending question.
    pub fn resume(self, reply: &Reply) -> (r: Self)
        ensures
            r@ == self@.resume(reply@),
    {
        let stage = match self.stage {
            AppliedStage::Ancestry => if reply.success {
                AppliedStage::Decided(true)
            } else {
                match &self.commit.change_id {
                    Some(id) => AppliedStage::SameChange(id.clone()),
                    None => AppliedStage::PickedFull,
                }
            },
            AppliedStage::SameChange(_) => if reply.has_hits() {
                AppliedStage::Decided(true)
            } else {
                AppliedStage::PickedFull
            },
            AppliedStage::PickedFull => if reply.has_hits() {
                AppliedStage::Decided(true)
            } else {
                AppliedStage::PickedShort
            },
            AppliedStage::PickedShort => AppliedStage::Decided(reply.has_hits()),
            AppliedStage::Decided(b) => AppliedStage::Decided(b),
        };
        AppliedCheck { commit: self.commit, base: self.base, stage }
    }
}

/// Starts the check whether `commit_info` is already applied on the current
/// branch, which left the reference branch at `base`.
pub fn is_commit_already_applied(commit_info: CommitInfo, base: &str) -> (r: AppliedCheck)
    ensures
        r@ == AppliedCheckView::begin(commit_info@, base@),
{
    AppliedCheck { commit: commit_info, base: base.to_string(), stage: AppliedStage::Ancestry }
}

} // verus!
