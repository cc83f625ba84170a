//! What a search for fixes is to find in a repository.
//!
//! A repository is taken as what it answers to each question. The
//! functions here say, without regard to the order of questions, which
//! fixes and warnings a repository holds.

use crate::commits::CommitView;
use crate::enrich::enriched_in;
use crate::fix::audit::warnings_in;
use crate::fix::originals::originals_in;
use crate::fix::queries::{head, range_between};
use crate::fix::search::{bare, fixes_in};
use crate::vcs::{hits, ListOrder, QueryView, ReplyView};
use vstd::prelude::*;

verus! {

/// What a search finds: fixes to pick, and warnings to give.
pub ghost struct Findings {
    pub fixes: Seq<CommitView>,
    pub warnings: Seq<Seq<char>>,
}

impl Findings {
    /// Nothing found.
    pub open spec fn none() -> Findings {
        Findings { fixes: Seq::empty(), warnings: Seq::empty() }
    }

    /// These findings, then those of `later`.
    pub open spec fn followed_by(self, later: Findings) -> Findings {
        Findings { fixes: self.fixes + later.fixes, warnings: self.warnings + later.warnings }
    }
}

/// What the repository `repo` holds for the original commit `original`: its
/// fixes that are not applied yet, and the warnings about it.
pub open spec fn findings_of_original(
    original: Seq<char>,
    ref_branch: Seq<char>,
    base: Seq<char>,
    repo: spec_fn(QueryView) -> ReplyView,
) -> Findings {
    Findings {
        fixes: fixes_in(original, ref_branch, base, repo),
        warnings: warnings_in(original, ref_branch, repo),
    }
}

/// What the repository holds for the original commits `originals`, in
/// order.
pub open spec fn findings_of_originals(
    originals: Seq<Seq<char>>,
    ref_branch: Seq<char>,
    base: Seq<char>,
    repo: spec_fn(QueryView) -> ReplyView,
) -> Findings
    decreases originals.len(),
{
    if originals.len() == 0 {
        Findings::none()
    } else {
        findings_of_original(originals[0], ref_branch, base, repo).followed_by(
            findings_of_originals(originals.skip(1), ref_branch, base, repo),
        )
    }
}

/// What the repository holds for the commits `commits` of the current
/// branch, in order: for each, once it is enriched, what the repository
/// holds for its originals on the reference branch.
pub open spec fn findings_of_commits(
    commits: Seq<Seq<char>>,
    ref_branch: Seq<char>,
    base: Seq<char>,
    repo: spec_fn(QueryView) -> ReplyView,
) -> Findings
    decreases commits.len(),
{
    if commits.len() == 0 {
        Findings::none()
    } else {
        findings_of_originals(
            originals_in(enriched_in(bare(commits[0]), repo), ref_branch, repo),
            ref_branch,
            base,
            repo,
        ).followed_by(findings_of_commits(commits.skip(1), ref_branch, base, repo))
    }
}

/// How a search for fixes ends.
pub ghost enum FixReport {
    /// With fixes and warnings; `listed` says whether the current branch
    /// has any commit since the base.
    Found { listed: bool, findings: Findings },
    /// Without a result: the commits could not be listed; git said this.
    Failed(Seq<char>),
}

/// What the search for the fixes on `ref_branch` of the commits since
/// `base` ends with in the repository `repo`. The commits since the base
/// are listed oldest first; if that fails, so does the search. Else it
/// finds, for each listed commit in order, what the repository holds for
/// it.
pub open spec fn fix_report(
    base: Seq<char>,
    ref_branch: Seq<char>,
    repo: spec_fn(QueryView) -> ReplyView,
) -> FixReport {
    let listing = repo(
        QueryView::ListCommits { range: range_between(base, head()), order: ListOrder::Reverse },
    );
    if listing.success {
        FixReport::Found {
            listed: hits(listing).len() > 0,
            findings: findings_of_commits(hits(listing), ref_branch, base, repo),
        }
    } else {
        FixReport::Failed(listing.diagnostics)
    }
}

/// Putting findings one after another is associative, and nothing found
/// changes nothing.
pub proof fn lemma_findings_followed_by(a: Findings, b: Findings, c: Findings)
    ensures
        a.followed_by(b).followed_by(c) == a.followed_by(b.followed_by(c)),
        a.followed_by(Findings::none()) == a,
        Findings::none().followed_by(a) == a,
{
    assert(a.followed_by(b).followed_by(c).fixes =~= a.followed_by(b.followed_by(c)).fixes);
    assert(a.followed_by(b).followed_by(c).warnings =~= a.followed_by(b.followed_by(c)).warnings);
    assert(a.followed_by(Findings::none()).fixes =~= a.fixes);
    assert(a.followed_by(Findings::none()).warnings =~= a.warnings);
    assert(Findings::none().followed_by(a).fixes =~= a.fixes);
    assert(Findings::none().followed_by(a).warnings =~= a.warnings);
}

} // verus!
