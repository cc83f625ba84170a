//! Reporting the commits that mention an original without being marked as
//! its fix.

use crate::fix::queries::{range, range_between, short_hash, shorten};
use crate::message::{get_commit_title, is_explicit_fix, is_explicit_fix_spec, title_in};
use crate::text::{opt_text, pop_front, texts};
use crate::vcs::{hits, opt_query, Query, QueryView, Reply, ReplyView};
use vstd::prelude::*;
use vstd::string::*;

verus! {

/// What the audit of the references to an original waits for.
#[derive(Debug)]
pub enum AuditStage {
    /// The commits after the original that mention its short hash.
    References,
    /// The message of this commit, which mentions the original.
    Message(String),
    /// The subject of this commit, which mentions the original and is not
    /// marked as its fix.
    Subject(String),
    /// Nothing: the audit is over.
    Done,
}

/// What an `AuditStage` holds, as character sequences.
pub ghost enum AuditStageView {
    References,
    Message(Seq<char>),
    Subject(Seq<char>),
    Done,
}

impl View for AuditStage {
    type V = AuditStageView;

    open spec fn view(&self) -> AuditStageView {
        match *self {
            AuditStage::References => AuditStageView::References,
            AuditStage::Message(c) => AuditStageView::Message(c@),
            AuditStage::Subject(c) => AuditStageView::Subject(c@),
            AuditStage::Done => AuditStageView::Done,
        }
    }
}

/// The audit of the commits that mention an original commit without being
/// marked as its fix. Each of them gives a warning.
#[derive(Debug)]
pub struct Audit {
    /// The original commit.
    pub original: String,
    /// The branch that is searched.
    pub ref_branch: String,
    /// The mentioning commits that are still to be looked at.
    pub rest: Vec<String>,
    /// The warnings so far.
    pub warnings: Vec<String>,
    /// What the audit waits for.
    pub stage: AuditStage,
}

/// What an `Audit` holds, as character sequences.
pub ghost struct AuditView {
    pub original: Seq<char>,
    pub ref_branch: Seq<char>,
    pub rest: Seq<Seq<char>>,
    pub warnings: Seq<Seq<char>>,
    pub stage: AuditStageView,
}

impl View for Audit {
    type V = AuditView;

    open spec fn view(&self) -> AuditView {
        AuditView {
            original: self.original@,
            ref_branch: self.ref_branch@,
            rest: texts(self.rest@),
            warnings: texts(self.warnings@),
            stage: self.stage@,
        }
    }
}

/// The warning about the commit `reference`, which mentions `original`
/// without being marked as its fix, and whose title is `title`.
pub open spec fn warning_text(
    reference: Seq<char>,
    original: Seq<char>,
    title: Option<Seq<char>>,
) -> Seq<char> {
    let text = "Commit "@ + reference + " references "@ + original
        + " but is not marked as a fix"@;
    match title {
        Some(t) => text + ": "@ + t,
        None => text,
    }
}

impl AuditView {
    /// The audit of the references to `original` before any answer.
    pub open spec fn begin(original: Seq<char>, ref_branch: Seq<char>) -> AuditView {
        AuditView {
            original,
            ref_branch,
            rest: Seq::empty(),
            warnings: Seq::empty(),
            stage: AuditStageView::References,
        }
    }

    /// The question that the audit waits for.
    pub open spec fn pending(self) -> Option<QueryView> {
        match self.stage {
            AuditStageView::References => Some(
                QueryView::SearchByMessage {
                    pattern: short_hash(self.original),
                    range: range_between(self.original, self.ref_branch),
                },
            ),
            AuditStageView::Message(c) => Some(QueryView::CommitBody { hash: c }),
            AuditStageView::Subject(c) => Some(QueryView::CommitSubject { hash: c }),
            AuditStageView::Done => None,
        }
    }

    /// The audit with `warnings` as its warnings so far, turning to the
    /// first of the mentioning commits `queue`, or done if there is none.
    pub open spec fn turn_to(self, queue: Seq<Seq<char>>, warnings: Seq<Seq<char>>) -> AuditView {
        if queue.len() == 0 {
            AuditView { rest: queue, warnings, stage: AuditStageView::Done, ..self }
        } else {
            AuditView {
                rest: queue.skip(1),
                warnings,
                stage: AuditStageView::Message(queue[0]),
                ..self
            }
        }
    }

    /// The audit after the answer to its pending question. A mentioning
    /// commit whose message marks it as a fix of the original passes; of
    /// any other the subject is asked, and a warning given.
    pub open spec fn resume(self, reply: ReplyView) -> AuditView {
        match self.stage {
            AuditStageView::References => self.turn_to(hits(reply), self.warnings),
            AuditStageView::Message(c) => if is_explicit_fix_spec(reply, self.original) {
                self.turn_to(self.rest, self.warnings)
            } else {
                AuditView { stage: AuditStageView::Subject(c), ..self }
            },
            AuditStageView::Subject(c) => self.turn_to(
                self.rest,
                self.warnings.push(warning_text(c, self.original, title_in(reply))),
            ),
            AuditStageView::Done => self,
        }
    }
}

/// The warning, if any, that the commit `reference` gives in the repository
/// `repo`: none if its message marks it as a fix of `original`, else one
/// with its title.
pub open spec fn warning_about(
    reference: Seq<char>,
    original: Seq<char>,
    repo: spec_fn(QueryView) -> ReplyView,
) -> Seq<Seq<char>> {
    if is_explicit_fix_spec(repo(QueryView::CommitBody { hash: reference }), original) {
        Seq::empty()
    } else {
        seq![
            warning_text(
                reference,
                original,
                title_in(repo(QueryView::CommitSubject { hash: reference })),
            ),
        ]
    }
}

/// The warnings that the commits `references` give, in order.
pub open spec fn warnings_among(
    references: Seq<Seq<char>>,
    original: Seq<char>,
    repo: spec_fn(QueryView) -> ReplyView,
) -> Seq<Seq<char>>
    decreases references.len(),
{
    if references.len() == 0 {
        Seq::empty()
    } else {
        warning_about(references[0], original, repo) + warnings_among(
            references.skip(1),
            original,
            repo,
        )
    }
}

/// The warnings about `original` in the repository `repo`: one for each
/// commit between the original and the tip of `ref_branch` whose message
/// holds the short hash of the original without marking the commit as its
/// fix.
pub open spec fn warnings_in(
    original: Seq<char>,
    ref_branch: Seq<char>,
    repo: spec_fn(QueryView) -> ReplyView,
) -> Seq<Seq<char>> {
    warnings_among(
        hits(
            repo(
                QueryView::SearchByMessage {
                    pattern: short_hash(original),
                    range: range_between(original, ref_branch),
                },
            ),
        ),
        original,
        repo,
    )
}

impl AuditView {
    /// The audit after the repository `repo` has answered its pending
    /// question; as it is, if it waits for none.
    pub open spec fn answered(self, repo: spec_fn(QueryView) -> ReplyView) -> AuditView {
        match self.pending() {
            Some(q) => self.resume(repo(q)),
            None => self,
        }
    }

    /// The audit after `repo` has answered `steps` questions in a row.
    pub open spec fn run(self, repo: spec_fn(QueryView) -> ReplyView, steps: nat) -> AuditView
        decreases steps,
    {
        if steps == 0 {
            self
        } else {
            self.answered(repo).run(repo, (steps - 1) as nat)
        }
    }

    /// The warnings that the audit ends with in the repository `repo`.
    pub open spec fn outcome(self, repo: spec_fn(QueryView) -> ReplyView) -> Seq<Seq<char>> {
        let later = warnings_among(self.rest, self.original, repo);
        match self.stage {
            AuditStageView::References => self.warnings + warnings_in(
                self.original,
                self.ref_branch,
                repo,
            ),
            AuditStageView::Message(c) => self.warnings + warning_about(c, self.original, repo)
                + later,
            AuditStageView::Subject(c) => self.warnings.push(
                warning_text(
                    c,
                    self.original,
                    title_in(repo(QueryView::CommitSubject { hash: c })),
                ),
            ) + later,
            AuditStageView::Done => self.warnings,
        }
    }
}

proof fn lemma_audit_turn(
    a: AuditView,
    queue: Seq<Seq<char>>,
    warnings: Seq<Seq<char>>,
    repo: spec_fn(QueryView) -> ReplyView,
)
    ensures
        a.turn_to(queue, warnings).outcome(repo) == warnings + warnings_among(
            queue,
            a.original,
            repo,
        ),
{
    if queue.len() == 0 {
        assert(warnings + Seq::<Seq<char>>::empty() =~= warnings);
    } else {
        assert(warnings + warning_about(queue[0], a.original, repo) + warnings_among(
            queue.skip(1),
            a.original,
            repo,
        ) =~= warnings + warnings_among(queue, a.original, repo));
    }
}

/// An answer of the repository does not change what an audit ends with.
pub proof fn lemma_audit_answer(a: AuditView, repo: spec_fn(QueryView) -> ReplyView)
    ensures
        a.answered(repo).outcome(repo) == a.outcome(repo),
        a.stage is Done ==> a.answered(repo) == a,
        !(a.stage is Done) ==> a.pending() is Some,
{
    match a.stage {
        AuditStageView::References => {
            let q = a.pending()->0;
            lemma_audit_turn(a, hits(repo(q)), a.warnings, repo);
        },
        AuditStageView::Message(c) => {
            let q = a.pending()->0;
            if is_explicit_fix_spec(repo(q), a.original) {
                lemma_audit_turn(a, a.rest, a.warnings, repo);
                assert(a.warnings + Seq::<Seq<char>>::empty() =~= a.warnings);
            } else {
                let w = warning_text(
                    c,
                    a.original,
                    title_in(repo(QueryView::CommitSubject { hash: c })),
                );
                assert(a.warnings + seq![w] =~= a.warnings.push(w));
            }
        },
        AuditStageView::Subject(c) => {
            let q = a.pending()->0;
            lemma_audit_turn(
                a,
                a.rest,
                a.warnings.push(warning_text(c, a.original, title_in(repo(q)))),
                repo,
            );
        },
        AuditStageView::Done => {},
    }
}

/// However many answers an audit takes, what it ends with stays the same.
pub proof fn lemma_audit_run(a: AuditView, repo: spec_fn(QueryView) -> ReplyView, steps: nat)
    ensures
        a.run(repo, steps).outcome(repo) == a.outcome(repo),
    decreases steps,
{
    if steps > 0 {
        lemma_audit_answer(a, repo);
        lemma_audit_run(a.answered(repo), repo, (steps - 1) as nat);
    }
}

/// The audit in a repository: once the audit of the references to
/// `original` is over, however many answers that took, it has given the
/// warnings about `original` in the repository.
pub proof fn lemma_audit_outcome(
    original: Seq<char>,
    ref_branch: Seq<char>,
    repo: spec_fn(QueryView) -> ReplyView,
    steps: nat,
)
    ensures
        AuditView::begin(original, ref_branch).outcome(repo) == warnings_in(
            original,
            ref_branch,
            repo,
        ),
        AuditView::begin(original, ref_branch).run(repo, steps).stage is Done ==> AuditView::begin(
            original,
            ref_branch,
        ).run(repo, steps).warnings == warnings_in(original, ref_branch, repo),
{
    lemma_audit_run(AuditView::begin(original, ref_branch), repo, steps);
    assert(Seq::<Seq<char>>::empty() + warnings_in(original, ref_branch, repo) =~= warnings_in(
        original,
        ref_branch,
        repo,
    ));
}

impl AuditView {
    /// The number of answers that the audit can still take in the
    /// repository `repo`.
    pub open spec fn budget(self, repo: spec_fn(QueryView) -> ReplyView) -> nat {
        match self.stage {
            AuditStageView::References => 1 + 2 * hits(
                repo(
                    QueryView::SearchByMessage {
                        pattern: short_hash(self.original),
                        range: range_between(self.original, self.ref_branch),
                    },
                ),
            ).len(),
            AuditStageView::Message(_) => 2 + 2 * self.rest.len(),
            AuditStageView::Subject(_) => 1 + 2 * self.rest.len(),
            AuditStageView::Done => 0,
        }
    }
}

/// Every answer brings an audit closer to its end.
pub proof fn lemma_audit_progress(a: AuditView, repo: spec_fn(QueryView) -> ReplyView)
    requires
        !(a.stage is Done),
    ensures
        a.answered(repo).budget(repo) < a.budget(repo),
{
}

/// The audit ends: in any repository, an audit is over once the repository
/// has answered as often as the audit's budget says, or more often.
pub proof fn lemma_audit_end(a: AuditView, repo: spec_fn(QueryView) -> ReplyView, steps: nat)
    requires
        steps >= a.budget(repo),
    ensures
        a.run(repo, steps).stage is Done,
    decreases steps,
{
    if steps > 0 {
        if !(a.stage is Done) {
            lemma_audit_progress(a, repo);
        }
        lemma_audit_end(a.answered(repo), repo, (steps - 1) as nat);
    }
}

fn warning(reference: &str, original: &str, title: Option<String>) -> (r: String)
    ensures
        r@ == warning_text(reference@, original@, opt_text(title)),
{
    let mut r = "Commit ".to_string();
    r.append(reference);
    r.append(" references ");
    r.append(original);
    r.append(" but is not marked as a fix");
    match title {
        Some(t) => {
            r.append(": ");
            r.append(t.as_str());
        },
        None => {},
    }
    r
}

impl Audit {
    /// The question to ask next; none once the audit is over.
    pub fn pending(&self) -> (q: Option<Query>)
        ensures
            opt_query(q) == self@.pending(),
    {
        match &self.stage {
            AuditStage::References => Some(
                Query::SearchByMessage {
                    pattern: shorten(self.original.as_str()),
                    range: range(self.original.as_str(), self.ref_branch.as_str()),
                },
            ),
            AuditStage::Message(c) => Some(Query::CommitBody { hash: c.clone() }),
            AuditStage::Subject(c) => Some(Query::CommitSubject { hash: c.clone() }),
            AuditStage::Done => None,
        }
    }

    fn advance(self) -> (r: Self)
        ensures
            r@ == self@.turn_to(self@.rest, self@.warnings),
    {
        let (first, rest) = pop_front(self.rest);
        match first {
            Some(c) => Audit { rest, stage: AuditStage::Message(c), ..self },
            None => {
                proof {
                    assert(texts(rest@) =~= self@.rest);
                }
                Audit { rest, stage: AuditStage::Done, ..self }
            },
        }
    }

    /// Takes the answer to the pending question.
    pub fn resume(self, reply: &Reply) -> (r: Self)
        ensures
            r@ == self@.resume(reply@),
    {
        match self.stage {
            AuditStage::References => {
                let audit = Audit { rest: reply.hits(), stage: AuditStage::References, ..self };
                audit.advance()
            },
            AuditStage::Message(c) => {
                if is_explicit_fix(reply, self.original.as_str()) {
                    let audit = Audit { stage: AuditStage::Done, ..self };
                    audit.advance()
                } else {
                    Audit { stage: AuditStage::Subject(c), ..self }
                }
            },
            AuditStage::Subject(c) => {
                let mut warnings = self.warnings;
                let ghost before = texts(warnings@);
                let text = warning(c.as_str(), self.original.as_str(), get_commit_title(reply));
                warnings.push(text);
                proof {
                    assert(texts(warnings@) =~= before.push(text@));
                }
                let audit = Audit { warnings, stage: AuditStage::Done, ..self };
                audit.advance()
            },
            AuditStage::Done => Audit { stage: AuditStage::Done, ..self },
        }
    }
}

/// Starts the audit of the commits on `ref_branch` that mention
/// `original_commit`.
pub fn find_references_for_commit(original_commit: &str, ref_branch: &str) -> (r: Audit)
    ensures
        r@ == AuditView::begin(original_commit@, ref_branch@),
{
    let r = Audit {
        original: original_commit.to_string(),
        ref_branch: ref_branch.to_string(),
        rest: Vec::new(),
        warnings: Vec::new(),
        stage: AuditStage::References,
    };
    proof {
        assert(texts(r.rest@) =~= Seq::<Seq<char>>::empty());
        assert(texts(r.warnings@) =~= Seq::<Seq<char>>::empty());
    }
    r
}

} // verus!
