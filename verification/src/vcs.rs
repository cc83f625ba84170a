//! The questions the library asks of the version-control system, and the
//! answers it takes.
//!
//! The library starts no process. Where it needs to know something of the
//! repository it hands its caller a `Query`; the caller runs git with the
//! arguments of `Query::to_args` and hands back a `Reply`.

use crate::text::{
    chars_of, opt_text, split_trimmed_lines, strings_of, texts, trim, trimmed, trimmed_lines,
};
use vstd::prelude::*;
use vstd::string::*;

verus! {

/// The order in which commits are listed.
#[derive(Debug, Clone, Copy, PartialEq, Eq, Structural)]
pub enum ListOrder {
    /// Newest first.
    Default,
    /// Oldest first.
    Reverse,
    /// Every commit after all of its ancestors.
    Topological,
}

/// A question to the version-control system.
#[derive(Debug)]
pub enum Query {
    /// The hashes of the commits in `range`, one per line.
    ListCommits { range: String, order: ListOrder },
    /// The whole message of a commit.
    CommitBody { hash: String },
    /// The first line of the message of a commit.
    CommitSubject { hash: String },
    /// Whether `candidate` is an ancestor of `of_ref`.
    IsAncestor { candidate: String, of_ref: String },
    /// The full hash that `abbrev` abbreviates.
    ExpandHash { abbrev: String },
    /// The hashes of the commits in `range` whose message matches `pattern`,
    /// one per line.
    SearchByMessage { pattern: String, range: String },
}

/// What a `Query` holds, as character sequences.
pub ghost enum QueryView {
    ListCommits { range: Seq<char>, order: ListOrder },
    CommitBody { hash: Seq<char> },
    CommitSubject { hash: Seq<char> },
    IsAncestor { candidate: Seq<char>, of_ref: Seq<char> },
    ExpandHash { abbrev: Seq<char> },
    SearchByMessage { pattern: Seq<char>, range: Seq<char> },
}

impl View for Query {
    type V = QueryView;

    open spec fn view(&self) -> QueryView {
        match *self {
            Query::ListCommits { range, order } => QueryView::ListCommits { range: range@, order },
            Query::CommitBody { hash } => QueryView::CommitBody { hash: hash@ },
            Query::CommitSubject { hash } => QueryView::CommitSubject { hash: hash@ },
            Query::IsAncestor { candidate, of_ref } => QueryView::IsAncestor {
                candidate: candidate@,
                of_ref: of_ref@,
            },
            Query::ExpandHash { abbrev } => QueryView::ExpandHash { abbrev: abbrev@ },
            Query::SearchByMessage { pattern, range } => QueryView::SearchByMessage {
                pattern: pattern@,
                range: range@,
            },
        }
    }
}

/// The view of an optional query.
pub open spec fn opt_query(q: Option<Query>) -> Option<QueryView> {
    match q {
        Some(q) => Some(q@),
        None => None,
    }
}

/// The arguments with which git answers a query.
pub open spec fn args_of(q: QueryView) -> Seq<Seq<char>> {
    match q {
        QueryView::ListCommits { range, order } => match order {
            ListOrder::Default => seq!["rev-list"@, range],
            ListOrder::Reverse => seq!["rev-list"@, "--reverse"@, range],
            ListOrder::Topological => seq!["rev-list"@, "--topo-order"@, "--reverse"@, range],
        },
        QueryView::CommitBody { hash } => seq!["log"@, "--format=%B"@, "-n"@, "1"@, hash],
        QueryView::CommitSubject { hash } => seq!["log"@, "--format=%s"@, "-n"@, "1"@, hash],
        QueryView::IsAncestor { candidate, of_ref } => seq![
            "merge-base"@,
            "--is-ancestor"@,
            candidate,
            of_ref,
        ],
        QueryView::ExpandHash { abbrev } => seq!["rev-parse"@, abbrev],
        QueryView::SearchByMessage { pattern, range } => seq![
            "log"@,
            "--format=%H"@,
            "--grep"@,
            pattern,
            range,
        ],
    }
}

impl Query {
    /// The arguments to run git with.
    pub fn to_args(&self) -> (r: Vec<String>)
        ensures
            texts(r@) == args_of(self@),
    {
        let mut args: Vec<String> = Vec::new();
        match self {
            Query::ListCommits { range, order } => {
                args.push("rev-list".to_string());
                match order {
                    ListOrder::Default => {},
                    ListOrder::Reverse => {
                        args.push("--reverse".to_string());
                    },
                    ListOrder::Topological => {
                        args.push("--topo-order".to_string());
                        args.push("--reverse".to_string());
                    },
                }
                args.push(range.clone());
            },
            Query::CommitBody { hash } => {
                args.push("log".to_string());
                args.push("--format=%B".to_string());
                args.push("-n".to_string());
                args.push("1".to_string());
                args.push(hash.clone());
            },
            Query::CommitSubject { hash } => {
                args.push("log".to_string());
                args.push("--format=%s".to_string());
                args.push("-n".to_string());
                args.push("1".to_string());
                args.push(hash.clone());
            },
            Query::IsAncestor { candidate, of_ref } => {
                args.push("merge-base".to_string());
                args.push("--is-ancestor".to_string());
                args.push(candidate.clone());
                args.push(of_ref.clone());
            },
            Query::ExpandHash { abbrev } => {
                args.push("rev-parse".to_string());
                args.push(abbrev.clone());
            },
            Query::SearchByMessage { pattern, range } => {
                args.push("log".to_string());
                args.push("--format=%H".to_string());
                args.push("--grep".to_string());
                args.push(pattern.clone());
                args.push(range.clone());
            },
        }
        proof {
            assert(texts(args@) =~= args_of(self@));
        }
        args
    }
}

/// The answer to a query: whether git succeeded, and what it printed.
#[derive(Debug)]
pub struct Reply {
    /// Whether git exited with status zero.
    pub success: bool,
    /// What git wrote to its standard output.
    pub output: String,
    /// What git wrote to its standard error.
    pub diagnostics: String,
}

/// What a `Reply` holds, as character sequences.
pub ghost struct ReplyView {
    pub success: bool,
    pub output: Seq<char>,
    pub diagnostics: Seq<char>,
}

impl View for Reply {
    type V = ReplyView;

    open spec fn view(&self) -> ReplyView {
        ReplyView { success: self.success, output: self.output@, diagnostics: self.diagnostics@ }
    }
}

/// The hashes that a listing or a search found: the lines of the output,
/// trimmed, without the empty ones; none where git failed.
pub open spec fn hits(reply: ReplyView) -> Seq<Seq<char>> {
    if reply.success {
        trimmed_lines(reply.output)
    } else {
        Seq::empty()
    }
}

/// The first hash that a search found, if it found any.
pub open spec fn first_hit(reply: ReplyView) -> Option<Seq<char>> {
    if hits(reply).len() > 0 {
        Some(hits(reply)[0])
    } else {
        None
    }
}

/// Whether a search succeeded and printed anything but white space.
pub open spec fn has_hits(reply: ReplyView) -> bool {
    reply.success && trim(reply.output).len() > 0
}

impl Reply {
    /// The hashes that a listing or a search found.
    pub fn hits(&self) -> (r: Vec<String>)
        ensures
            texts(r@) == hits(self@),
    {
        if self.success {
            strings_of(&split_trimmed_lines(&chars_of(self.output.as_str())))
        } else {
            let r: Vec<String> = Vec::new();
            proof {
                assert(texts(r@) =~= Seq::<Seq<char>>::empty());
            }
            r
        }
    }

    /// The first hash that a search found, if it found any.
    pub fn first_hit(&self) -> (r: Option<String>)
        ensures
            opt_text(r) == first_hit(self@),
    {
        let mut found = self.hits();
        if found.len() > 0 {
            let first = found.swap_remove(0);
            proof {
                assert(first@ == hits(self@)[0]);
            }
            Some(first)
        } else {
            None
        }
    }

    /// Whether a search succeeded and printed anything but white space.
    pub fn has_hits(&self) -> (r: bool)
        ensures
            r == has_hits(self@),
    {
        self.success && trimmed(&chars_of(self.output.as_str())).len() > 0
    }
}

} // verus!
