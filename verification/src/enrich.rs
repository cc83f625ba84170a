//! Enriching a commit record: asking the version-control system for the
//! fields that the record lacks.
//!
//! An enrichment asks at most three questions, in this order: the message,
//! for the Change-Id; the full hash; the subject, for the title. It skips a
//! question whose answer the record does not need.

use crate::commits::{
    enriched, with_change_id, with_full_hash, with_title, CommitInfo, CommitView, FULL_HASH_LEN,
};
use crate::vcs::{opt_query, Query, QueryView, Reply, ReplyView};
use vstd::prelude::*;

verus! {

/// What an enrichment waits for.
#[derive(Debug, Clone, Copy, PartialEq, Eq, Structural)]
pub enum EnrichStage {
    /// The message of the commit.
    ChangeId,
    /// The full hash of the commit.
    FullHash,
    /// The subject of the commit.
    Title,
    /// Nothing: the record is enriched.
    Done,
}

/// A commit record on its way to being enriched.
#[derive(Debug)]
pub struct Enrichment {
    /// The record, with what the answers so far have added.
    pub commit: CommitInfo,
    /// What the enrichment waits for.
    pub stage: EnrichStage,
}

/// What an `Enrichment` holds, as character sequences.
pub ghost struct EnrichmentView {
    pub commit: CommitView,
    pub stage: EnrichStage,
}

impl View for Enrichment {
    type V = EnrichmentView;

    open spec fn view(&self) -> EnrichmentView {
        EnrichmentView { commit: self.commit@, stage: self.stage }
    }
}

/// The first stage, from `from` on, whose question the commit `c` needs
/// answered.
pub open spec fn first_needed(c: CommitView, from: EnrichStage) -> EnrichStage {
    let title = if c.title is None {
        EnrichStage::Title
    } else {
        EnrichStage::Done
    };
    let full_hash = if c.hash.len() != FULL_HASH_LEN {
        EnrichStage::FullHash
    } else {
        title
    };
    match from {
        EnrichStage::ChangeId => if c.change_id is None {
            EnrichStage::ChangeId
        } else {
            full_hash
        },
        EnrichStage::FullHash => full_hash,
        EnrichStage::Title => title,
        EnrichStage::Done => EnrichStage::Done,
    }
}

impl EnrichmentView {
    /// The enrichment of `c` before any answer.
    pub open spec fn begin(c: CommitView) -> EnrichmentView {
        EnrichmentView { commit: c, stage: first_needed(c, EnrichStage::ChangeId) }
    }

    /// The question that the enrichment waits for.
    pub open spec fn pending(self) -> Option<QueryView> {
        match self.stage {
            EnrichStage::ChangeId => Some(QueryView::CommitBody { hash: self.commit.hash }),
            EnrichStage::FullHash => Some(QueryView::ExpandHash { abbrev: self.commit.hash }),
            EnrichStage::Title => Some(QueryView::CommitSubject { hash: self.commit.hash }),
            EnrichStage::Done => None,
        }
    }

    /// The enrichment after the answer to its pending question.
    pub open spec fn resume(self, reply: ReplyView) -> EnrichmentView {
        match self.stage {
            EnrichStage::ChangeId => {
                let c = with_change_id(self.commit, reply);
                EnrichmentView { commit: c, stage: first_needed(c, EnrichStage::FullHash) }
            },
            EnrichStage::FullHash => {
                let c = with_full_hash(self.commit, reply);
                EnrichmentView { commit: c, stage: first_needed(c, EnrichStage::Title) }
            },
            EnrichStage::Title => EnrichmentView {
                commit: with_title(self.commit, reply),
                stage: EnrichStage::Done,
            },
            EnrichStage::Done => self,
        }
    }

    /// The enrichment after the repository `repo` has answered its pending
    /// question; as it is, if it waits for none.
    pub open spec fn answered(self, repo: spec_fn(QueryView) -> ReplyView) -> EnrichmentView {
        match self.pending() {
            Some(q) => self.resume(repo(q)),
            None => self,
        }
    }

    /// The enrichment after `repo` has answered `steps` questions in a row.
    pub open spec fn run(self, repo: spec_fn(QueryView) -> ReplyView, steps: nat)
        -> EnrichmentView
        decreases steps,
    {
        if steps == 0 {
            self
        } else {
            self.answered(repo).run(repo, (steps - 1) as nat)
        }
    }

    /// The record that the enrichment ends with in the repository `repo`.
    pub open spec fn outcome(self, repo: spec_fn(QueryView) -> ReplyView) -> CommitView {
        let c = self.commit;
        match self.stage {
            EnrichStage::ChangeId => enriched_in(c, repo),
            EnrichStage::FullHash => titled_in(
                with_full_hash(c, repo(QueryView::ExpandHash { abbrev: c.hash })),
                repo,
            ),
            EnrichStage::Title => titled_in(c, repo),
            EnrichStage::Done => c,
        }
    }
}

/// The commit `c` with the title that the repository `repo` shows for it,
/// unless it has one.
pub open spec fn titled_in(c: CommitView, repo: spec_fn(QueryView) -> ReplyView) -> CommitView {
    with_title(c, repo(QueryView::CommitSubject { hash: c.hash }))
}

/// The commit `c` enriched from the repository `repo`: with the Change-Id
/// in its message, then its full hash, then its title, each unless it has
/// it.
pub open spec fn enriched_in(c: CommitView, repo: spec_fn(QueryView) -> ReplyView) -> CommitView {
    let c = with_change_id(c, repo(QueryView::CommitBody { hash: c.hash }));
    titled_in(with_full_hash(c, repo(QueryView::ExpandHash { abbrev: c.hash })), repo)
}

/// Enriching from a repository is enriching with three of its answers: to
/// the question for the message of the commit, for the full hash of the
/// commit, and for the subject of the commit under its full hash.
pub proof fn lemma_enriched_in(c: CommitView, repo: spec_fn(QueryView) -> ReplyView)
    ensures
        ({
            let message = repo(QueryView::CommitBody { hash: c.hash });
            let expanded = repo(QueryView::ExpandHash { abbrev: c.hash });
            let full = with_full_hash(c, expanded).hash;
            let subject = repo(QueryView::CommitSubject { hash: full });
            enriched_in(c, repo) == enriched(c, message, expanded, subject)
        }),
{
}

/// Enrichment from a repository is idempotent: a record that is enriched
/// a second time stays as it is, provided that the repository shows the
/// same message for the commit under its enriched hash as under the hash
/// that the record had first.
pub proof fn lemma_enriching_twice(c: CommitView, repo: spec_fn(QueryView) -> ReplyView)
    requires
        repo(QueryView::CommitBody { hash: enriched_in(c, repo).hash }) == repo(
            QueryView::CommitBody { hash: c.hash },
        ),
    ensures
        enriched_in(enriched_in(c, repo), repo) == enriched_in(c, repo),
{
}

/// An answer of the repository does not change what an enrichment ends
/// with.
pub proof fn lemma_enrichment_answer(e: EnrichmentView, repo: spec_fn(QueryView) -> ReplyView)
    ensures
        e.answered(repo).outcome(repo) == e.outcome(repo),
        e.stage == EnrichStage::Done ==> e.answered(repo) == e,
        e.stage != EnrichStage::Done ==> e.pending() is Some,
{
}

/// Enrichment in a repository: once the enrichment of `c` is done, however
/// many answers that took, the record is `c` enriched from the repository.
/// Three answers end every enrichment.
pub proof fn lemma_enrichment_outcome(
    c: CommitView,
    repo: spec_fn(QueryView) -> ReplyView,
    steps: nat,
)
    ensures
        EnrichmentView::begin(c).outcome(repo) == enriched_in(c, repo),
        EnrichmentView::begin(c).run(repo, steps).stage == EnrichStage::Done
            ==> EnrichmentView::begin(c).run(repo, steps).commit == enriched_in(c, repo),
        EnrichmentView::begin(c).run(repo, 3).stage == EnrichStage::Done,
{
    let e = EnrichmentView::begin(c);
    lemma_enrichment_run(e, repo, steps);
    reveal_with_fuel(EnrichmentView::run, 4);
}

/// However many answers an enrichment takes, what it ends with stays the
/// same.
pub proof fn lemma_enrichment_run(
    e: EnrichmentView,
    repo: spec_fn(QueryView) -> ReplyView,
    steps: nat,
)
    ensures
        e.run(repo, steps).outcome(repo) == e.outcome(repo),
    decreases steps,
{
    if steps > 0 {
        lemma_enrichment_answer(e, repo);
        lemma_enrichment_run(e.answered(repo), repo, (steps - 1) as nat);
    }
}

impl EnrichmentView {
    /// The number of answers that the enrichment can still take.
    pub open spec fn budget(self) -> nat {
        match self.stage {
            EnrichStage::ChangeId => 3,
            EnrichStage::FullHash => 2,
            EnrichStage::Title => 1,
            EnrichStage::Done => 0,
        }
    }
}

/// Every answer brings an enrichment closer to its end.
pub proof fn lemma_enrichment_progress(e: EnrichmentView, repo: spec_fn(QueryView) -> ReplyView)
    requires
        e.stage != EnrichStage::Done,
    ensures
        e.answered(repo).budget() < e.budget(),
{
}

fn first_needed_stage(commit: &CommitInfo, from: EnrichStage) -> (r: EnrichStage)
    ensures
        r == first_needed(commit@, from),
{
    let title = if commit.title.is_none() {
        EnrichStage::Title
    } else {
        EnrichStage::Done
    };
    let full_hash = if !commit.has_full_hash() {
        EnrichStage::FullHash
    } else {
        title
    };
    match from {
        EnrichStage::ChangeId => if commit.change_id.is_none() {
            EnrichStage::ChangeId
        } else {
            full_hash
        },
        EnrichStage::FullHash => full_hash,
        EnrichStage::Title => title,
        EnrichStage::Done => EnrichStage::Done,
    }
}

impl Enrichment {
    /// Starts the enrichment of `commit`.
    pub fn begin(commit: CommitInfo) -> (r: Self)
        ensures
            r@ == EnrichmentView::begin(commit@),
    {
        let stage = first_needed_stage(&commit, EnrichStage::ChangeId);
        Enrichment { commit, stage }
    }

    /// The question to ask next; none once the record is enriched.
    pub fn pending(&self) -> (q: Option<Query>)
        ensures
            opt_query(q) == self@.pending(),
    {
        match self.stage {
            EnrichStage::ChangeId => Some(Query::CommitBody { hash: self.commit.hash.clone() }),
            EnrichStage::FullHash => Some(Query::ExpandHash { abbrev: self.commit.hash.clone() }),
            EnrichStage::Title => Some(Query::CommitSubject { hash: self.commit.hash.clone() }),
            EnrichStage::Done => None,
        }
    }

    /// Takes the answer to the pending question.
    pub fn resume(self, reply: &Reply) -> (r: Self)
        ensures
            r@ == self@.resume(reply@),
    {
        let mut commit = self.commit;
        match self.stage {
            EnrichStage::ChangeId => {
                commit.fetch_change_id_if_missing(reply);
                let stage = first_needed_stage(&commit, EnrichStage::FullHash);
                Enrichment { commit, stage }
            },
            EnrichStage::FullHash => {
                commit.expand_hash_to_full(reply);
                let stage = first_needed_stage(&commit, EnrichStage::Title);
                Enrichment { commit, stage }
            },
            EnrichStage::Title => {
                commit.set_title_if_missing(reply);
                Enrichment { commit, stage: EnrichStage::Done }
            },
            EnrichStage::Done => Enrichment { commit, stage: EnrichStage::Done },
        }
    }
}

} // verus!
