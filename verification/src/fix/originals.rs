//! Finding the originals of a commit on the reference branch.

use crate::commits::{CommitInfo, CommitView};
use crate::fix::queries::{change_id_pattern, find_commit_by_change_id};
use crate::message::{get_was_change_ids, was_change_ids_in};
use crate::text::{contains_text, pop_front, texts};
use crate::vcs::{first_hit, opt_query, Query, QueryView, Reply, ReplyView};
use vstd::prelude::*;
use vstd::string::*;

verus! {

/// What the search for a commit's originals waits for.
#[derive(Debug)]
pub enum OriginalStage {
    /// The commits of the reference branch with this Change-Id, which is the
    /// commit's own.
    ByChangeId(String),
    /// The message of the commit, for its earlier Change-Ids.
    Trailers,
    /// The commits of the reference branch with this Change-Id, which is one
    /// of the commit's earlier ones.
    ByWasId(String),
    /// Nothing: the originals are found.
    Done,
}

/// What an `OriginalStage` holds, as character sequences.
pub ghost enum OriginalStageView {
    ByChangeId(Seq<char>),
    Trailers,
    ByWasId(Seq<char>),
    Done,
}

impl View for OriginalStage {
    type V = OriginalStageView;

    open spec fn view(&self) -> OriginalStageView {
        match *self {
            OriginalStage::ByChangeId(id) => OriginalStageView::ByChangeId(id@),
            OriginalStage::Trailers => OriginalStageView::Trailers,
            OriginalStage::ByWasId(id) => OriginalStageView::ByWasId(id@),
            OriginalStage::Done => OriginalStageView::Done,
        }
    }
}

/// The search for the originals of a commit on the reference branch: the
/// commit there that carries its Change-Id, and those that carry one of its
/// earlier Change-Ids.
#[derive(Debug)]
pub struct OriginalSearch {
    /// The hash of the commit whose originals are sought.
    pub hash: String,
    /// The branch that is searched.
    pub ref_branch: String,
    /// The earlier Change-Ids that are still to be looked up.
    pub rest: Vec<String>,
    /// The originals found so far, each once, in the order found.
    pub found: Vec<String>,
    /// What the search waits for.
    pub stage: OriginalStage,
}

/// What an `OriginalSearch` holds, as character sequences.
pub ghost struct OriginalSearchView {
    pub hash: Seq<char>,
    pub ref_branch: Seq<char>,
    pub rest: Seq<Seq<char>>,
    pub found: Seq<Seq<char>>,
    pub stage: OriginalStageView,
}

impl View for OriginalSearch {
    type V = OriginalSearchView;

    open spec fn view(&self) -> OriginalSearchView {
        OriginalSearchView {
            hash: self.hash@,
            ref_branch: self.ref_branch@,
            rest: texts(self.rest@),
            found: texts(self.found@),
            stage: self.stage@,
        }
    }
}

impl OriginalSearchView {
    /// The search for the originals of `commit` before any answer.
    pub open spec fn begin(commit: CommitView, ref_branch: Seq<char>) -> OriginalSearchView {
        OriginalSearchView {
            hash: commit.hash,
            ref_branch,
            rest: Seq::empty(),
            found: Seq::empty(),
            stage: match commit.change_id {
                Some(id) => OriginalStageView::ByChangeId(id),
                None => OriginalStageView::Trailers,
            },
        }
    }

    /// The question that the search waits for.
    pub open spec fn pending(self) -> Option<QueryView> {
        match self.stage {
            OriginalStageView::ByChangeId(id) => Some(
                QueryView::SearchByMessage {
                    pattern: change_id_pattern(id),
                    range: self.ref_branch,
                },
            ),
            OriginalStageView::Trailers => Some(QueryView::CommitBody { hash: self.hash }),
            OriginalStageView::ByWasId(id) => Some(
                QueryView::SearchByMessage {
                    pattern: change_id_pattern(id),
                    range: self.ref_branch,
                },
            ),
            OriginalStageView::Done => None,
        }
    }

    /// The search with `found` as its originals so far, turning to the
    /// first of the earlier Change-Ids `queue`, or done if there is none.
    pub open spec fn turn_to(self, queue: Seq<Seq<char>>, found: Seq<Seq<char>>)
        -> OriginalSearchView {
        if queue.len() == 0 {
            OriginalSearchView { rest: queue, found, stage: OriginalStageView::Done, ..self }
        } else {
            OriginalSearchView {
                rest: queue.skip(1),
                found,
                stage: OriginalStageView::ByWasId(queue[0]),
                ..self
            }
        }
    }

    /// `found` with the first hit of `reply`, if there is one that `found`
    /// does not hold yet.
    pub open spec fn with_hit(found: Seq<Seq<char>>, reply: ReplyView) -> Seq<Seq<char>> {
        match first_hit(reply) {
            Some(h) => if found.contains(h) {
                found
            } else {
                found.push(h)
            },
            None => found,
        }
    }

    /// The search after the answer to its pending question.
    pub open spec fn resume(self, reply: ReplyView) -> OriginalSearchView {
        match self.stage {
            OriginalStageView::ByChangeId(_) => OriginalSearchView {
                found: Self::with_hit(self.found, reply),
                stage: OriginalStageView::Trailers,
                ..self
            },
            OriginalStageView::Trailers => self.turn_to(was_change_ids_in(reply), self.found),
            OriginalStageView::ByWasId(_) => self.turn_to(
                self.rest,
                Self::with_hit(self.found, reply),
            ),
            OriginalStageView::Done => self,
        }
    }
}

/// What the repository `repo` answers to the search for the commits of
/// `ref_branch` with the Change-Id `id`.
pub open spec fn search_by_change_id(
    id: Seq<char>,
    ref_branch: Seq<char>,
    repo: spec_fn(QueryView) -> ReplyView,
) -> ReplyView {
    repo(QueryView::SearchByMessage { pattern: change_id_pattern(id), range: ref_branch })
}

/// The originals `found`, and then, for each of the Change-Ids `ids` in
/// order, the first commit of `ref_branch` that carries it, unless it is
/// among the originals already.
pub open spec fn more_originals(
    found: Seq<Seq<char>>,
    ids: Seq<Seq<char>>,
    ref_branch: Seq<char>,
    repo: spec_fn(QueryView) -> ReplyView,
) -> Seq<Seq<char>>
    decreases ids.len(),
{
    if ids.len() == 0 {
        found
    } else {
        more_originals(
            OriginalSearchView::with_hit(found, search_by_change_id(ids[0], ref_branch, repo)),
            ids.skip(1),
            ref_branch,
            repo,
        )
    }
}

/// The originals of the commit `c` on `ref_branch` in the repository
/// `repo`: the first commit there that carries its Change-Id, then, for
/// each of the earlier Change-Ids in its message, the first commit there
/// that carries that; each original once.
pub open spec fn originals_in(
    c: CommitView,
    ref_branch: Seq<char>,
    repo: spec_fn(QueryView) -> ReplyView,
) -> Seq<Seq<char>> {
    let first = match c.change_id {
        Some(id) => OriginalSearchView::with_hit(
            Seq::empty(),
            search_by_change_id(id, ref_branch, repo),
        ),
        None => Seq::empty(),
    };
    more_originals(
        first,
        was_change_ids_in(repo(QueryView::CommitBody { hash: c.hash })),
        ref_branch,
        repo,
    )
}

impl OriginalSearchView {
    /// The search after the repository `repo` has answered its pending
    /// question; as it is, if it waits for none.
    pub open spec fn answered(self, repo: spec_fn(QueryView) -> ReplyView) -> OriginalSearchView {
        match self.pending() {
            Some(q) => self.resume(repo(q)),
            None => self,
        }
    }

    /// The search after `repo` has answered `steps` questions in a row.
    pub open spec fn run(self, repo: spec_fn(QueryView) -> ReplyView, steps: nat)
        -> OriginalSearchView
        decreases steps,
    {
        if steps == 0 {
            self
        } else {
            self.answered(repo).run(repo, (steps - 1) as nat)
        }
    }

    /// The originals that the search ends with in the repository `repo`.
    pub open spec fn outcome(self, repo: spec_fn(QueryView) -> ReplyView) -> Seq<Seq<char>> {
        let earlier = was_change_ids_in(repo(QueryView::CommitBody { hash: self.hash }));
        match self.stage {
            OriginalStageView::ByChangeId(id) => more_originals(
                Self::with_hit(self.found, search_by_change_id(id, self.ref_branch, repo)),
                earlier,
                self.ref_branch,
                repo,
            ),
            OriginalStageView::Trailers => more_originals(
                self.found,
                earlier,
                self.ref_branch,
                repo,
            ),
            OriginalStageView::ByWasId(id) => more_originals(
                Self::with_hit(self.found, search_by_change_id(id, self.ref_branch, repo)),
                self.rest,
                self.ref_branch,
                repo,
            ),
            OriginalStageView::Done => self.found,
        }
    }
}

/// An answer of the repository does not change what a search for originals
/// ends with.
pub proof fn lemma_originals_answer(o: OriginalSearchView, repo: spec_fn(QueryView) -> ReplyView)
    ensures
        o.answered(repo).outcome(repo) == o.outcome(repo),
        o.answered(repo).ref_branch == o.ref_branch,
        o.stage is Done ==> o.answered(repo) == o,
        !(o.stage is Done) ==> o.pending() is Some,
{
}

/// However many answers a search for originals takes, what it ends with
/// stays the same.
pub proof fn lemma_originals_run(
    o: OriginalSearchView,
    repo: spec_fn(QueryView) -> ReplyView,
    steps: nat,
)
    ensures
        o.run(repo, steps).outcome(repo) == o.outcome(repo),
    decreases steps,
{
    if steps > 0 {
        lemma_originals_answer(o, repo);
        lemma_originals_run(o.answered(repo), repo, (steps - 1) as nat);
    }
}

/// The search for originals in a repository: once the search for the
/// originals of `c` is done, however many answers that took, it has found
/// the originals of `c` in the repository.
pub proof fn lemma_originals_outcome(
    c: CommitView,
    ref_branch: Seq<char>,
    repo: spec_fn(QueryView) -> ReplyView,
    steps: nat,
)
    ensures
        OriginalSearchView::begin(c, ref_branch).outcome(repo) == originals_in(
            c,
            ref_branch,
            repo,
        ),
        OriginalSearchView::begin(c, ref_branch).run(repo, steps).stage is Done
            ==> OriginalSearchView::begin(c, ref_branch).run(repo, steps).found == originals_in(
            c,
            ref_branch,
            repo,
        ),
{
    lemma_originals_run(OriginalSearchView::begin(c, ref_branch), repo, steps);
}

impl OriginalSearchView {
    /// The number of answers that the search can still take in the
    /// repository `repo`.
    pub open spec fn budget(self, repo: spec_fn(QueryView) -> ReplyView) -> nat {
        let earlier = was_change_ids_in(repo(QueryView::CommitBody { hash: self.hash })).len();
        match self.stage {
            OriginalStageView::ByChangeId(_) => 2 + earlier,
            OriginalStageView::Trailers => 1 + earlier,
            OriginalStageView::ByWasId(_) => 1 + self.rest.len(),
            OriginalStageView::Done => 0,
        }
    }
}

/// Every answer brings a search for originals closer to its end.
pub proof fn lemma_originals_progress(o: OriginalSearchView, repo: spec_fn(QueryView) -> ReplyView)
    requires
        !(o.stage is Done),
    ensures
        o.answered(repo).budget(repo) < o.budget(repo),
{
}

/// The search for originals ends: in any repository, the search for the
/// originals of `c` is done once the repository has answered as often as
/// the search's budget says, or more often.
pub proof fn lemma_originals_end(
    o: OriginalSearchView,
    repo: spec_fn(QueryView) -> ReplyView,
    steps: nat,
)
    requires
        steps >= o.budget(repo),
    ensures
        o.run(repo, steps).stage is Done,
    decreases steps,
{
    if steps > 0 {
        if !(o.stage is Done) {
            lemma_originals_progress(o, repo);
        }
        lemma_originals_end(o.answered(repo), repo, (steps - 1) as nat);
    }
}

impl OriginalSearch {
    /// The question to ask next; none once the originals are found.
    pub fn pending(&self) -> (q: Option<Query>)
        ensures
            opt_query(q) == self@.pending(),
    {
        match &self.stage {
            OriginalStage::ByChangeId(id) => Some(
                find_commit_by_change_id(id.as_str(), self.ref_branch.as_str()),
            ),
            OriginalStage::Trailers => Some(Query::CommitBody { hash: self.hash.clone() }),
            OriginalStage::ByWasId(id) => Some(
                find_commit_by_change_id(id.as_str(), self.ref_branch.as_str()),
            ),
            OriginalStage::Done => None,
        }
    }

    fn advance(self) -> (r: Self)
        ensures
            r@ == self@.turn_to(self@.rest, self@.found),
    {
        let (first, rest) = pop_front(self.rest);
        match first {
            Some(id) => OriginalSearch { rest, stage: OriginalStage::ByWasId(id), ..self },
            None => {
                proof {
                    assert(texts(rest@) =~= self@.rest);
                }
                OriginalSearch { rest, stage: OriginalStage::Done, ..self }
            },
        }
    }

    fn with_hit(found: Vec<String>, reply: &Reply) -> (r: Vec<String>)
        ensures
            texts(r@) == OriginalSearchView::with_hit(texts(found@), reply@),
    {
        let mut found = found;
        match reply.first_hit() {
            Some(h) => {
                if !contains_text(&found, h.as_str()) {
                    let ghost before = texts(found@);
                    found.push(h);
                    proof {
                        assert(texts(found@) =~= before.push(h@));
                    }
                }
            },
            None => {},
        }
        found
    }

    /// Takes the answer to the pending question.
    pub fn resume(self, reply: &Reply) -> (r: Self)
        ensures
            r@ == self@.resume(reply@),
    {
        match self.stage {
            OriginalStage::ByChangeId(_) => OriginalSearch {
                found: Self::with_hit(self.found, reply),
                stage: OriginalStage::Trailers,
                ..self
            },
            OriginalStage::Trailers => {
                let search = OriginalSearch {
                    rest: get_was_change_ids(reply),
                    stage: OriginalStage::Trailers,
                    ..self
                };
                search.advance()
            },
            OriginalStage::ByWasId(_) => {
                let search = OriginalSearch {
                    found: Self::with_hit(self.found, reply),
                    stage: OriginalStage::Done,
                    ..self
                };
                search.advance()
            },
            OriginalStage::Done => OriginalSearch { stage: OriginalStage::Done, ..self },
        }
    }
}

/// Starts the search for the originals of `commit` on `ref_branch`.
pub fn find_all_original_commits(commit: &CommitInfo, ref_branch: &str) -> (r: OriginalSearch)
    ensures
        r@ == OriginalSearchView::begin(commit@, ref_branch@),
{
    let r = OriginalSearch {
        hash: commit.hash.clone(),
        ref_branch: ref_branch.to_string(),
        rest: Vec::new(),
        found: Vec::new(),
        stage: match &commit.change_id {
            Some(id) => OriginalStage::ByChangeId(id.clone()),
            None => OriginalStage::Trailers,
        },
    };
    proof {
        assert(texts(r.rest@) =~= Seq::<Seq<char>>::empty());
        assert(texts(r.found@) =~= Seq::<Seq<char>>::empty());
    }
    r
}

} // verus!
