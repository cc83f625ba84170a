//! The `fix` command as a conversation. For each commit since the base,
//! in order: the commit is enriched, its originals on the reference branch
//! are found, and for each original, in order, its fixes are collected and
//! the references to it audited.

use crate::commits::{commit_views, CommitInfo, CommitView};
use crate::enrich::{
    enriched_in, lemma_enrichment_answer, lemma_enrichment_outcome, lemma_enrichment_progress,
    EnrichStage, Enrichment, EnrichmentView,
};
use crate::fix::audit::{
    find_references_for_commit, lemma_audit_answer, lemma_audit_outcome, lemma_audit_progress,
    warnings_in, Audit, AuditStage, AuditView,
};
use crate::fix::originals::{
    find_all_original_commits, lemma_originals_answer, lemma_originals_outcome,
    lemma_originals_progress, originals_in, OriginalSearch, OriginalSearchView, OriginalStage,
};
use crate::fix::queries::{concat, head, range, range_between};
use crate::fix::report::{
    findings_of_commits, findings_of_original, findings_of_originals, fix_report,
    lemma_findings_followed_by, Findings, FixReport,
};
use crate::fix::search::{
    bare, find_fixes_for_commit, lemma_search_answer, lemma_search_outcome, lemma_search_progress,
    FixSearch, FixSearchView, FixStage,
};
use crate::fix::unique::{dedup_fixes, listing_of, output_commits_file, unique_fixes};
use crate::message::was_change_ids_in;
use crate::text::{pop_front, texts};
use crate::vcs::{hits, opt_query, ListOrder, Query, QueryView, Reply, ReplyView};
use vstd::prelude::*;
use vstd::string::*;

verus! {

/// What the search for fixes is told: where the current branch left the
/// reference branch, and the reference branch.
#[derive(Debug)]
pub struct Args {
    /// The commit after which the current branch is looked at.
    pub base: String,
    /// The branch that is searched for fixes.
    pub ref_branch: String,
}

/// Why the search for fixes ended without a result.
#[derive(Debug)]
pub enum FixError {
    /// The commits of the current branch could not be listed; git said this.
    ListingFailed(String),
}

impl FixError {
    /// The message shown to the user.
    pub fn message(&self) -> (r: String)
        ensures
            r@ == match *self {
                FixError::ListingFailed(diagnostics) => "git rev-list failed: "@ + diagnostics@,
            },
    {
        match self {
            FixError::ListingFailed(diagnostics) => concat(
                "git rev-list failed: ",
                diagnostics.as_str(),
            ),
        }
    }
}

/// What the search for fixes waits for.
#[derive(Debug)]
pub enum SessionStage {
    /// The commits of the current branch since the base, oldest first.
    Listing,
    /// An answer to the enrichment of one of those commits.
    Enriching(Enrichment),
    /// An answer to the search for that commit's originals.
    Locating(OriginalSearch),
    /// An answer to the search for the fixes of one original.
    Fixing(FixSearch),
    /// An answer to the audit of the references to that original.
    Auditing(Audit),
    /// Nothing: all commits are dealt with.
    Done,
    /// Nothing: the commits could not be listed; git said this.
    Failed(String),
}

/// What a `SessionStage` holds, as character sequences.
pub ghost enum SessionStageView {
    Listing,
    Enriching(EnrichmentView),
    Locating(OriginalSearchView),
    Fixing(FixSearchView),
    Auditing(AuditView),
    Done,
    Failed(Seq<char>),
}

impl View for SessionStage {
    type V = SessionStageView;

    open spec fn view(&self) -> SessionStageView {
        match *self {
            SessionStage::Listing => SessionStageView::Listing,
            SessionStage::Enriching(e) => SessionStageView::Enriching(e@),
            SessionStage::Locating(o) => SessionStageView::Locating(o@),
            SessionStage::Fixing(f) => SessionStageView::Fixing(f@),
            SessionStage::Auditing(a) => SessionStageView::Auditing(a@),
            SessionStage::Done => SessionStageView::Done,
            SessionStage::Failed(d) => SessionStageView::Failed(d@),
        }
    }
}

/// The search for the fixes that the current branch lacks. For each commit
/// since the base, in order: the commit is enriched, its originals on the
/// reference branch are found, and for each original, in order, its fixes
/// are collected and the references to it audited.
#[derive(Debug)]
pub struct FixSession {
    /// The commit after which the current branch is looked at.
    pub base: String,
    /// The branch that is searched for fixes.
    pub ref_branch: String,
    /// Whether the current branch has any commit since the base.
    pub listed: bool,
    /// The commits of the current branch that are still to be dealt with.
    pub commits: Vec<String>,
    /// The originals of the commit at hand that are still to be dealt with.
    pub originals: Vec<String>,
    /// The fixes collected so far.
    pub fixes: Vec<CommitInfo>,
    /// The warnings given so far.
    pub warnings: Vec<String>,
    /// What the search waits for.
    pub stage: SessionStage,
}

/// What a `FixSession` holds, as character sequences.
pub ghost struct FixSessionView {
    pub base: Seq<char>,
    pub ref_branch: Seq<char>,
    pub listed: bool,
    pub commits: Seq<Seq<char>>,
    pub originals: Seq<Seq<char>>,
    pub fixes: Seq<CommitView>,
    pub warnings: Seq<Seq<char>>,
    pub stage: SessionStageView,
}

impl View for FixSession {
    type V = FixSessionView;

    open spec fn view(&self) -> FixSessionView {
        FixSessionView {
            base: self.base@,
            ref_branch: self.ref_branch@,
            listed: self.listed,
            commits: texts(self.commits@),
            originals: texts(self.originals@),
            fixes: commit_views(self.fixes@),
            warnings: texts(self.warnings@),
            stage: self.stage@,
        }
    }
}

impl FixSessionView {
    /// The search before any answer.
    pub open spec fn begin(base: Seq<char>, ref_branch: Seq<char>) -> FixSessionView {
        FixSessionView {
            base,
            ref_branch,
            listed: false,
            commits: Seq::empty(),
            originals: Seq::empty(),
            fixes: Seq::empty(),
            warnings: Seq::empty(),
            stage: SessionStageView::Listing,
        }
    }

    /// The question that the search waits for.
    pub open spec fn pending(self) -> Option<QueryView> {
        match self.stage {
            SessionStageView::Listing => Some(
                QueryView::ListCommits {
                    range: range_between(self.base, head()),
                    order: ListOrder::Reverse,
                },
            ),
            SessionStageView::Enriching(e) => e.pending(),
            SessionStageView::Locating(o) => o.pending(),
            SessionStageView::Fixing(f) => f.pending(),
            SessionStageView::Auditing(a) => a.pending(),
            SessionStageView::Done => None,
            SessionStageView::Failed(_) => None,
        }
    }

    /// The search turning to the first of the commits `queue`, or done if
    /// there is none.
    pub open spec fn next_commit(self, queue: Seq<Seq<char>>) -> FixSessionView {
        if queue.len() == 0 {
            FixSessionView { commits: queue, stage: SessionStageView::Done, ..self }
        } else {
            FixSessionView {
                commits: queue.skip(1),
                stage: SessionStageView::Enriching(EnrichmentView::begin(bare(queue[0]))),
                ..self
            }
        }
    }

    /// The search turning to the first of the originals `queue`, or to the
    /// next commit if there is none.
    pub open spec fn next_original(self, queue: Seq<Seq<char>>) -> FixSessionView {
        if queue.len() == 0 {
            (FixSessionView { originals: queue, ..self }).next_commit(self.commits)
        } else {
            FixSessionView {
                originals: queue.skip(1),
                stage: SessionStageView::Fixing(
                    FixSearchView::begin(queue[0], self.ref_branch, self.base),
                ),
                ..self
            }
        }
    }

    /// The search after the answer to its pending question.
    pub open spec fn resume(self, reply: ReplyView) -> FixSessionView {
        match self.stage {
            SessionStageView::Listing => if reply.success {
                (FixSessionView { listed: hits(reply).len() > 0, ..self }).next_commit(hits(reply))
            } else {
                FixSessionView { stage: SessionStageView::Failed(reply.diagnostics), ..self }
            },
            SessionStageView::Enriching(e) => {
                let e = e.resume(reply);
                if e.stage == EnrichStage::Done {
                    FixSessionView {
                        stage: SessionStageView::Locating(
                            OriginalSearchView::begin(e.commit, self.ref_branch),
                        ),
                        ..self
                    }
                } else {
                    FixSessionView { stage: SessionStageView::Enriching(e), ..self }
                }
            },
            SessionStageView::Locating(o) => {
                let o = o.resume(reply);
                if o.stage is Done {
                    self.next_original(o.found)
                } else {
                    FixSessionView { stage: SessionStageView::Locating(o), ..self }
                }
            },
            SessionStageView::Fixing(f) => {
                let f = f.resume(reply);
                if f.stage is Done {
                    FixSessionView {
                        fixes: self.fixes + f.fixes,
                        stage: SessionStageView::Auditing(
                            AuditView::begin(f.original, self.ref_branch),
                        ),
                        ..self
                    }
                } else {
                    FixSessionView { stage: SessionStageView::Fixing(f), ..self }
                }
            },
            SessionStageView::Auditing(a) => {
                let a = a.resume(reply);
                if a.stage is Done {
                    (FixSessionView { warnings: self.warnings + a.warnings, ..self }).next_original(
                        self.originals,
                    )
                } else {
                    FixSessionView { stage: SessionStageView::Auditing(a), ..self }
                }
            },
            SessionStageView::Done => self,
            SessionStageView::Failed(_) => self,
        }
    }

    /// What the search prints once it is done: nothing if the current
    /// branch has no commit since the base; else the commit list of the
    /// fixes, each once, in the order of their hashes.
    pub open spec fn output(self) -> Seq<char> {
        if self.listed {
            listing_of(unique_fixes(self.fixes))
        } else {
            Seq::empty()
        }
    }
}

impl FixSessionView {
    /// The search after the repository `repo` has answered its pending
    /// question; as it is, if it waits for none.
    pub open spec fn answered(self, repo: spec_fn(QueryView) -> ReplyView) -> FixSessionView {
        match self.pending() {
            Some(q) => self.resume(repo(q)),
            None => self,
        }
    }

    /// The search after `repo` has answered `steps` questions in a row.
    pub open spec fn run(self, repo: spec_fn(QueryView) -> ReplyView, steps: nat) -> FixSessionView
        decreases steps,
    {
        if steps == 0 {
            self
        } else {
            self.answered(repo).run(repo, (steps - 1) as nat)
        }
    }

    /// What the search has found so far.
    pub open spec fn findings(self) -> Findings {
        Findings { fixes: self.fixes, warnings: self.warnings }
    }

    /// What the search ends with in the repository `repo`.
    pub open spec fn outcome(self, repo: spec_fn(QueryView) -> ReplyView) -> FixReport {
        let of_commits = findings_of_commits(self.commits, self.ref_branch, self.base, repo);
        let of_originals = findings_of_originals(
            self.originals,
            self.ref_branch,
            self.base,
            repo,
        );
        match self.stage {
            SessionStageView::Listing => match fix_report(self.base, self.ref_branch, repo) {
                FixReport::Found { listed, findings } => FixReport::Found {
                    listed,
                    findings: self.findings().followed_by(findings),
                },
                FixReport::Failed(d) => FixReport::Failed(d),
            },
            SessionStageView::Enriching(e) => FixReport::Found {
                listed: self.listed,
                findings: self.findings().followed_by(
                    findings_of_originals(
                        originals_in(e.outcome(repo), self.ref_branch, repo),
                        self.ref_branch,
                        self.base,
                        repo,
                    ),
                ).followed_by(of_commits),
            },
            SessionStageView::Locating(o) => FixReport::Found {
                listed: self.listed,
                findings: self.findings().followed_by(
                    findings_of_originals(o.outcome(repo), self.ref_branch, self.base, repo),
                ).followed_by(of_commits),
            },
            SessionStageView::Fixing(f) => FixReport::Found {
                listed: self.listed,
                findings: self.findings().followed_by(
                    Findings {
                        fixes: f.outcome(repo),
                        warnings: warnings_in(f.original, self.ref_branch, repo),
                    },
                ).followed_by(of_originals).followed_by(of_commits),
            },
            SessionStageView::Auditing(a) => FixReport::Found {
                listed: self.listed,
                findings: self.findings().followed_by(
                    Findings { fixes: Seq::empty(), warnings: a.outcome(repo) },
                ).followed_by(of_originals).followed_by(of_commits),
            },
            SessionStageView::Done => FixReport::Found {
                listed: self.listed,
                findings: self.findings(),
            },
            SessionStageView::Failed(d) => FixReport::Failed(d),
        }
    }
}

/// The number of answers that dealing with the original commit `original`
/// can take in the repository `repo`: those of the search for its fixes and
/// of the audit of the references to it.
pub open spec fn cost_of_original(
    original: Seq<char>,
    ref_branch: Seq<char>,
    base: Seq<char>,
    repo: spec_fn(QueryView) -> ReplyView,
) -> nat {
    FixSearchView::begin(original, ref_branch, base).budget(repo) + AuditView::begin(
        original,
        ref_branch,
    ).budget(repo)
}

/// The number of answers that dealing with the original commits
/// `originals` can take.
pub open spec fn cost_of_originals(
    originals: Seq<Seq<char>>,
    ref_branch: Seq<char>,
    base: Seq<char>,
    repo: spec_fn(QueryView) -> ReplyView,
) -> nat
    decreases originals.len(),
{
    if originals.len() == 0 {
        0
    } else {
        cost_of_original(originals[0], ref_branch, base, repo) + cost_of_originals(
            originals.skip(1),
            ref_branch,
            base,
            repo,
        )
    }
}

/// The number of answers that dealing with the enriched commit `c` can
/// take: those of the search for its originals, and of dealing with them.
pub open spec fn cost_of_enriched(
    c: CommitView,
    ref_branch: Seq<char>,
    base: Seq<char>,
    repo: spec_fn(QueryView) -> ReplyView,
) -> nat {
    2 + was_change_ids_in(repo(QueryView::CommitBody { hash: c.hash })).len()
        + cost_of_originals(originals_in(c, ref_branch, repo), ref_branch, base, repo)
}

/// The number of answers that dealing with the commits `commits` of the
/// current branch can take.
pub open spec fn cost_of_commits(
    commits: Seq<Seq<char>>,
    ref_branch: Seq<char>,
    base: Seq<char>,
    repo: spec_fn(QueryView) -> ReplyView,
) -> nat
    decreases commits.len(),
{
    if commits.len() == 0 {
        0
    } else {
        3 + cost_of_enriched(enriched_in(bare(commits[0]), repo), ref_branch, base, repo)
            + cost_of_commits(commits.skip(1), ref_branch, base, repo)
    }
}

impl FixSessionView {
    /// Whether the search is over: done, or failed.
    pub open spec fn is_over(self) -> bool {
        self.stage is Done || self.stage is Failed
    }

    /// Whether the search is in order: where it waits for an answer to one
    /// of its parts, that part is in order and not over.
    pub open spec fn is_sound(self) -> bool {
        match self.stage {
            SessionStageView::Enriching(e) => e.stage != EnrichStage::Done,
            SessionStageView::Locating(o) => !(o.stage is Done) && o.ref_branch == self.ref_branch,
            SessionStageView::Fixing(f) => f.is_sound() && !(f.stage is Done),
            SessionStageView::Auditing(a) => !(a.stage is Done),
            _ => true,
        }
    }

    /// The number of answers that the search can still take in the
    /// repository `repo`.
    pub open spec fn budget(self, repo: spec_fn(QueryView) -> ReplyView) -> nat {
        let of_commits = cost_of_commits(self.commits, self.ref_branch, self.base, repo);
        let of_originals = cost_of_originals(self.originals, self.ref_branch, self.base, repo);
        match self.stage {
            SessionStageView::Listing => {
                let listing = repo(
                    QueryView::ListCommits {
                        range: range_between(self.base, head()),
                        order: ListOrder::Reverse,
                    },
                );
                if listing.success {
                    1 + cost_of_commits(hits(listing), self.ref_branch, self.base, repo)
                } else {
                    1
                }
            },
            SessionStageView::Enriching(e) => e.budget() + cost_of_enriched(
                e.outcome(repo),
                self.ref_branch,
                self.base,
                repo,
            ) + of_commits,
            SessionStageView::Locating(o) => o.budget(repo) + cost_of_originals(
                o.outcome(repo),
                self.ref_branch,
                self.base,
                repo,
            ) + of_commits,
            SessionStageView::Fixing(f) => f.budget(repo) + AuditView::begin(
                f.original,
                self.ref_branch,
            ).budget(repo) + of_originals + of_commits,
            SessionStageView::Auditing(a) => a.budget(repo) + of_originals + of_commits,
            SessionStageView::Done => 0,
            SessionStageView::Failed(_) => 0,
        }
    }
}

/// The question for the commits that `head` has and `base` has not, oldest
/// first.
pub fn get_commits_in_range(base: &str, head: &str) -> (q: Query)
    ensures
        q@ == (QueryView::ListCommits {
            range: range_between(base@, head@),
            order: ListOrder::Reverse,
        }),
{
    Query::ListCommits { range: range(base, head), order: ListOrder::Reverse }
}

impl FixSession {
    /// The question to ask next; none once the search is over.
    pub fn pending(&self) -> (q: Option<Query>)
        ensures
            opt_query(q) == self@.pending(),
    {
        match &self.stage {
            SessionStage::Listing => Some(get_commits_in_range(self.base.as_str(), "HEAD")),
            SessionStage::Enriching(e) => e.pending(),
            SessionStage::Locating(o) => o.pending(),
            SessionStage::Fixing(f) => f.pending(),
            SessionStage::Auditing(a) => a.pending(),
            SessionStage::Done => None,
            SessionStage::Failed(_) => None,
        }
    }

    fn next_commit(self) -> (r: Self)
        ensures
            r@ == self@.next_commit(self@.commits),
    {
        let (first, rest) = pop_front(self.commits);
        match first {
            Some(hash) => FixSession {
                commits: rest,
                stage: SessionStage::Enriching(Enrichment::begin(CommitInfo::from_hash(hash))),
                ..self
            },
            None => {
                proof {
                    assert(texts(rest@) =~= self@.commits);
                }
                FixSession { commits: rest, stage: SessionStage::Done, ..self }
            },
        }
    }

    fn next_original(self) -> (r: Self)
        ensures
            r@ == self@.next_original(self@.originals),
    {
        let (first, rest) = pop_front(self.originals);
        match first {
            Some(original) => {
                let search = find_fixes_for_commit(
                    original.as_str(),
                    self.ref_branch.as_str(),
                    self.base.as_str(),
                );
                FixSession { originals: rest, stage: SessionStage::Fixing(search), ..self }
            },
            None => {
                proof {
                    assert(texts(rest@) =~= self@.originals);
                }
                let session = FixSession { originals: rest, ..self };
                session.next_commit()
            },
        }
    }

    /// Takes the answer to the pending question.
    pub fn resume(self, reply: &Reply) -> (r: Self)
        ensures
            r@ == self@.resume(reply@),
    {
        match self.stage {
            SessionStage::Listing => {
                if reply.success {
                    let found = reply.hits();
                    let session = FixSession {
                        listed: found.len() > 0,
                        commits: found,
                        stage: SessionStage::Listing,
                        ..self
                    };
                    session.next_commit()
                } else {
                    FixSession { stage: SessionStage::Failed(reply.diagnostics.clone()), ..self }
                }
            },
            SessionStage::Enriching(e) => {
                let e = e.resume(reply);
                let stage = match e.stage {
                    EnrichStage::Done => SessionStage::Locating(
                        find_all_original_commits(&e.commit, self.ref_branch.as_str()),
                    ),
                    _ => SessionStage::Enriching(e),
                };
                FixSession { stage, ..self }
            },
            SessionStage::Locating(o) => {
                let o = o.resume(reply);
                match o.stage {
                    OriginalStage::Done => {
                        let session = FixSession {
                            originals: o.found,
                            stage: SessionStage::Done,
                            ..self
                        };
                        session.next_original()
                    },
                    _ => FixSession { stage: SessionStage::Locating(o), ..self },
                }
            },
            SessionStage::Fixing(f) => {
                let f = f.resume(reply);
                match f.stage {
                    FixStage::Done => {
                        let mut fixes = self.fixes;
                        let mut found = f.fixes;
                        let ghost before = commit_views(fixes@);
                        let ghost added = commit_views(found@);
                        fixes.append(&mut found);
                        proof {
                            assert(commit_views(fixes@) =~= before + added);
                        }
                        let audit = find_references_for_commit(
                            f.original.as_str(),
                            self.ref_branch.as_str(),
                        );
                        FixSession { fixes, stage: SessionStage::Auditing(audit), ..self }
                    },
                    _ => FixSession { stage: SessionStage::Fixing(f), ..self },
                }
            },
            SessionStage::Auditing(a) => {
                let a = a.resume(reply);
                match a.stage {
                    AuditStage::Done => {
                        let mut warnings = self.warnings;
                        let mut given = a.warnings;
                        let ghost before = texts(warnings@);
                        let ghost added = texts(given@);
                        warnings.append(&mut given);
                        proof {
                            assert(texts(warnings@) =~= before + added);
                        }
                        let session = FixSession { warnings, stage: SessionStage::Done, ..self };
                        session.next_original()
                    },
                    _ => FixSession { stage: SessionStage::Auditing(a), ..self },
                }
            },
            SessionStage::Done => FixSession { stage: SessionStage::Done, ..self },
            SessionStage::Failed(d) => FixSession { stage: SessionStage::Failed(d), ..self },
        }
    }

    /// The result of the search: the text to print, or the failure; none
    /// while the search waits for an answer.
    pub fn finish(&self) -> (r: Option<Result<String, FixError>>)
        ensures
            match self@.stage {
                SessionStageView::Done => r matches Some(Ok(text)) && text@ == self@.output(),
                SessionStageView::Failed(d) => r matches Some(Err(FixError::ListingFailed(e)))
                    && e@ == d,
                _ => r is None,
            },
    {
        match &self.stage {
            SessionStage::Done => {
                if self.listed {
                    Some(Ok(output_commits_file(&dedup_fixes(&self.fixes))))
                } else {
                    Some(Ok(String::new()))
                }
            },
            SessionStage::Failed(d) => Some(Err(FixError::ListingFailed(d.clone()))),
            _ => None,
        }
    }
}

/// Starts the search for the fixes on `args.ref_branch` of the commits that
/// the current branch has since `args.base`.
pub fn command(args: Args) -> (r: FixSession)
    ensures
        r@ == FixSessionView::begin(args.base@, args.ref_branch@),
{
    let r = FixSession {
        base: args.base,
        ref_branch: args.ref_branch,
        listed: false,
        commits: Vec::new(),
        originals: Vec::new(),
        fixes: Vec::new(),
        warnings: Vec::new(),
        stage: SessionStage::Listing,
    };
    proof {
        assert(texts(r.commits@) =~= Seq::<Seq<char>>::empty());
        assert(texts(r.originals@) =~= Seq::<Seq<char>>::empty());
        assert(texts(r.warnings@) =~= Seq::<Seq<char>>::empty());
        assert(commit_views(r.fixes@) =~= Seq::<CommitView>::empty());
    }
    r
}

proof fn lemma_session_next_commit(
    s: FixSessionView,
    queue: Seq<Seq<char>>,
    repo: spec_fn(QueryView) -> ReplyView,
)
    ensures
        s.next_commit(queue).outcome(repo) == (FixReport::Found {
            listed: s.listed,
            findings: s.findings().followed_by(
                findings_of_commits(queue, s.ref_branch, s.base, repo),
            ),
        }),
{
    let of_queue = findings_of_commits(queue, s.ref_branch, s.base, repo);
    if queue.len() == 0 {
        lemma_findings_followed_by(s.findings(), Findings::none(), Findings::none());
    } else {
        lemma_enrichment_outcome(bare(queue[0]), repo, 0);
        lemma_findings_followed_by(
            s.findings(),
            findings_of_originals(
                originals_in(enriched_in(bare(queue[0]), repo), s.ref_branch, repo),
                s.ref_branch,
                s.base,
                repo,
            ),
            findings_of_commits(queue.skip(1), s.ref_branch, s.base, repo),
        );
    }
}

proof fn lemma_session_next_original(
    s: FixSessionView,
    queue: Seq<Seq<char>>,
    repo: spec_fn(QueryView) -> ReplyView,
)
    ensures
        s.next_original(queue).outcome(repo) == (FixReport::Found {
            listed: s.listed,
            findings: s.findings().followed_by(
                findings_of_originals(queue, s.ref_branch, s.base, repo),
            ).followed_by(findings_of_commits(s.commits, s.ref_branch, s.base, repo)),
        }),
{
    let of_commits = findings_of_commits(s.commits, s.ref_branch, s.base, repo);
    if queue.len() == 0 {
        let t = FixSessionView { originals: queue, ..s };
        lemma_session_next_commit(t, s.commits, repo);
        lemma_findings_followed_by(s.findings(), Findings::none(), of_commits);
    } else {
        lemma_search_outcome(queue[0], s.ref_branch, s.base, repo, 0);
        let first = findings_of_original(queue[0], s.ref_branch, s.base, repo);
        let later = findings_of_originals(queue.skip(1), s.ref_branch, s.base, repo);
        lemma_findings_followed_by(s.findings(), first, later);
    }
}

/// An answer of the repository does not change what a search for fixes
/// ends with.
pub proof fn lemma_session_answer(s: FixSessionView, repo: spec_fn(QueryView) -> ReplyView)
    ensures
        s.answered(repo).outcome(repo) == s.outcome(repo),
{
    let of_commits = findings_of_commits(s.commits, s.ref_branch, s.base, repo);
    let of_originals = findings_of_originals(s.originals, s.ref_branch, s.base, repo);
    match s.stage {
        SessionStageView::Listing => {
            let reply = repo(s.pending()->0);
            if reply.success {
                let t = FixSessionView { listed: hits(reply).len() > 0, ..s };
                lemma_session_next_commit(t, hits(reply), repo);
            }
        },
        SessionStageView::Enriching(e) => {
            lemma_enrichment_answer(e, repo);
            if e.pending() is Some {
                let e2 = e.answered(repo);
                if e2.stage == EnrichStage::Done {
                    lemma_originals_outcome(e2.commit, s.ref_branch, repo, 0);
                }
            }
        },
        SessionStageView::Locating(o) => {
            lemma_originals_answer(o, repo);
            if o.pending() is Some {
                let o2 = o.answered(repo);
                if o2.stage is Done {
                    lemma_session_next_original(s, o2.found, repo);
                }
            }
        },
        SessionStageView::Fixing(f) => {
            lemma_search_answer(f, repo);
            if f.pending() is Some {
                let f2 = f.answered(repo);
                if f2.stage is Done {
                    lemma_audit_outcome(f2.original, s.ref_branch, repo, 0);
                    let found = Findings {
                        fixes: f2.fixes,
                        warnings: warnings_in(f.original, s.ref_branch, repo),
                    };
                    let t = FixSessionView { fixes: s.fixes + f2.fixes, ..s };
                    assert(t.findings().followed_by(
                        Findings {
                            fixes: Seq::empty(),
                            warnings: warnings_in(f.original, s.ref_branch, repo),
                        },
                    ).fixes =~= s.findings().followed_by(found).fixes);
                    assert(t.findings().followed_by(
                        Findings {
                            fixes: Seq::empty(),
                            warnings: warnings_in(f.original, s.ref_branch, repo),
                        },
                    ).warnings =~= s.findings().followed_by(found).warnings);
                }
            }
        },
        SessionStageView::Auditing(a) => {
            lemma_audit_answer(a, repo);
            if a.pending() is Some {
                let a2 = a.answered(repo);
                if a2.stage is Done {
                    let t = FixSessionView { warnings: s.warnings + a2.warnings, ..s };
                    lemma_session_next_original(t, s.originals, repo);
                    let given = Findings { fixes: Seq::empty(), warnings: a2.warnings };
                    assert(t.findings().fixes =~= s.findings().followed_by(given).fixes);
                    assert(t.findings().warnings =~= s.findings().followed_by(given).warnings);
                }
            }
        },
        SessionStageView::Done => {},
        SessionStageView::Failed(_) => {},
    }
}

/// However many answers a search for fixes takes, what it ends with stays
/// the same.
pub proof fn lemma_session_run(
    s: FixSessionView,
    repo: spec_fn(QueryView) -> ReplyView,
    steps: nat,
)
    ensures
        s.run(repo, steps).outcome(repo) == s.outcome(repo),
    decreases steps,
{
    if steps > 0 {
        lemma_session_answer(s, repo);
        lemma_session_run(s.answered(repo), repo, (steps - 1) as nat);
    }
}

/// The search for fixes in a repository: once the search is over, however
/// many answers that took, it has found what the repository holds. If it
/// is done, its fixes and warnings are those of `fix_report`, in that
/// order; if it has failed, so has `fix_report`, with the same words of
/// git.
pub proof fn lemma_session_outcome(
    base: Seq<char>,
    ref_branch: Seq<char>,
    repo: spec_fn(QueryView) -> ReplyView,
    steps: nat,
)
    ensures
        ({
            let end = FixSessionView::begin(base, ref_branch).run(repo, steps);
            &&& end.stage is Done ==> fix_report(base, ref_branch, repo) == (FixReport::Found {
                listed: end.listed,
                findings: end.findings(),
            })
            &&& end.stage matches SessionStageView::Failed(d) ==> fix_report(
                base,
                ref_branch,
                repo,
            ) == FixReport::Failed(d)
        }),
{
    let start = FixSessionView::begin(base, ref_branch);
    lemma_session_run(start, repo, steps);
    match fix_report(base, ref_branch, repo) {
        FixReport::Found { listed, findings } => {
            lemma_findings_followed_by(findings, Findings::none(), Findings::none());
            assert(start.findings() == Findings::none());
        },
        FixReport::Failed(_) => {},
    }
}

proof fn lemma_session_next_commit_cost(
    s: FixSessionView,
    queue: Seq<Seq<char>>,
    repo: spec_fn(QueryView) -> ReplyView,
)
    ensures
        s.next_commit(queue).is_sound(),
        s.next_commit(queue).budget(repo) <= cost_of_commits(queue, s.ref_branch, s.base, repo),
{
    if queue.len() > 0 {
        lemma_enrichment_outcome(bare(queue[0]), repo, 0);
    }
}

proof fn lemma_session_next_original_cost(
    s: FixSessionView,
    queue: Seq<Seq<char>>,
    repo: spec_fn(QueryView) -> ReplyView,
)
    ensures
        s.next_original(queue).is_sound(),
        s.next_original(queue).budget(repo) <= cost_of_originals(
            queue,
            s.ref_branch,
            s.base,
            repo,
        ) + cost_of_commits(s.commits, s.ref_branch, s.base, repo),
{
    if queue.len() == 0 {
        lemma_session_next_commit_cost(FixSessionView { originals: queue, ..s }, s.commits, repo);
    }
}

/// Every answer brings a search for fixes closer to its end, and leaves it
/// in order.
pub proof fn lemma_session_progress(s: FixSessionView, repo: spec_fn(QueryView) -> ReplyView)
    requires
        s.is_sound(),
        !s.is_over(),
    ensures
        s.answered(repo).is_sound(),
        s.answered(repo).budget(repo) < s.budget(repo),
{
    match s.stage {
        SessionStageView::Listing => {
            let reply = repo(s.pending()->0);
            if reply.success {
                lemma_session_next_commit_cost(
                    FixSessionView { listed: hits(reply).len() > 0, ..s },
                    hits(reply),
                    repo,
                );
            }
        },
        SessionStageView::Enriching(e) => {
            lemma_enrichment_answer(e, repo);
            lemma_enrichment_progress(e, repo);
            let e2 = e.answered(repo);
            if e2.stage == EnrichStage::Done {
                lemma_originals_outcome(e2.commit, s.ref_branch, repo, 0);
            }
        },
        SessionStageView::Locating(o) => {
            lemma_originals_answer(o, repo);
            lemma_originals_progress(o, repo);
            let o2 = o.answered(repo);
            if o2.stage is Done {
                lemma_session_next_original_cost(s, o2.found, repo);
            }
        },
        SessionStageView::Fixing(f) => {
            lemma_search_answer(f, repo);
            lemma_search_progress(f, repo);
        },
        SessionStageView::Auditing(a) => {
            lemma_audit_answer(a, repo);
            lemma_audit_progress(a, repo);
            let a2 = a.answered(repo);
            if a2.stage is Done {
                lemma_session_next_original_cost(
                    FixSessionView { warnings: s.warnings + a2.warnings, ..s },
                    s.originals,
                    repo,
                );
            }
        },
        _ => {},
    }
}

/// The search for fixes ends: whatever the repository answers, a search
/// that is in order is over once the repository has answered as often as
/// the search's budget says, or more often.
pub proof fn lemma_session_end(s: FixSessionView, repo: spec_fn(QueryView) -> ReplyView, steps: nat)
    requires
        s.is_sound(),
        steps >= s.budget(repo),
    ensures
        s.run(repo, steps).is_over(),
    decreases steps,
{
    if steps > 0 {
        if !s.is_over() {
            lemma_session_progress(s, repo);
        }
        lemma_session_end(s.answered(repo), repo, (steps - 1) as nat);
    }
}

/// The search for fixes is right and ends: in any repository, after as
/// many answers as its budget says the search from `base` on `ref_branch`
/// is over, with what `fix_report` says.
pub proof fn lemma_fix_command(
    base: Seq<char>,
    ref_branch: Seq<char>,
    repo: spec_fn(QueryView) -> ReplyView,
)
    ensures
        ({
            let start = FixSessionView::begin(base, ref_branch);
            let end = start.run(repo, start.budget(repo));
            match fix_report(base, ref_branch, repo) {
                FixReport::Found { listed, findings } => end.stage is Done && end.listed == listed
                    && end.findings() == findings,
                FixReport::Failed(d) => end.stage == SessionStageView::Failed(d),
            }
        }),
{
    let start = FixSessionView::begin(base, ref_branch);
    lemma_session_end(start, repo, start.budget(repo));
    lemma_session_outcome(base, ref_branch, repo, start.budget(repo));
}

} // verus!
