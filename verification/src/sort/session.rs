//! The `sort` command as a conversation: the history is asked for, the
//! commits are sorted, and, where the sorted list goes back to its file,
//! every entry is enriched before it is written.

use crate::commits::{
    bare_commits, commit_views, commits_of, entry_views, hashes_of, line_of, parse_spec,
    serialize_spec, CommitEntry, CommitInfo, CommitView, CommitsFile, CommitsParser, EntryView,
    ParseError,
};
use crate::enrich::{
    enriched_in, lemma_enrichment_answer, lemma_enrichment_outcome, lemma_enrichment_progress,
    EnrichStage, Enrichment, EnrichmentView,
};
use crate::sort::{sort_commits_topologically, sort_spec, SortError, SortErrorView};
use crate::sort::reorder::{attach, attach_infos, reorder, reorder_entries};
use crate::text::{clone_strings, line_feed, opt_text, texts};
use crate::vcs::{opt_query, ListOrder, Query, QueryView, Reply, ReplyView};
use vstd::prelude::*;
use vstd::string::*;

verus! {

/// What the sorting of commits is told.
#[derive(Debug)]
pub struct Args {
    /// The commits to sort, where no file names them.
    pub commits: Vec<String>,
    /// The commit-list file that names the commits to sort.
    pub commits_file: Option<String>,
    /// Whether to write the sorted list back to the file.
    pub in_place: bool,
    /// The reference by whose history the commits are ordered.
    pub reference: String,
}

/// What the sorting ends with.
#[derive(Debug)]
pub enum SortOutcome {
    /// Text to print: one line for each sorted commit.
    Print(String),
    /// A commit-list file to write, and the number of commits sorted.
    Rewrite { file: CommitsFile, updated: usize },
}

/// What a `SortOutcome` holds, as character sequences.
pub ghost enum SortOutcomeView {
    Print(Seq<char>),
    Rewrite { path: Seq<char>, content: Seq<char>, updated: int },
}

impl View for SortOutcome {
    type V = SortOutcomeView;

    open spec fn view(&self) -> SortOutcomeView {
        match *self {
            SortOutcome::Print(text) => SortOutcomeView::Print(text@),
            SortOutcome::Rewrite { file, updated } => SortOutcomeView::Rewrite {
                path: file.path@,
                content: file.content@,
                updated: updated as int,
            },
        }
    }
}

/// What the sorting waits for.
#[derive(Debug)]
pub enum SortStage {
    /// The history of the reference.
    Listing,
    /// An answer to the enrichment of an entry that is to be written.
    Enriching(Enrichment),
    /// Nothing: the commits are sorted.
    Done,
    /// Nothing: the commits could not be sorted.
    Failed(SortError),
}

/// What a `SortStage` holds, as character sequences.
pub ghost enum SortStageView {
    Listing,
    Enriching(EnrichmentView),
    Done,
    Failed(SortErrorView),
}

impl View for SortStage {
    type V = SortStageView;

    open spec fn view(&self) -> SortStageView {
        match *self {
            SortStage::Listing => SortStageView::Listing,
            SortStage::Enriching(e) => SortStageView::Enriching(e@),
            SortStage::Done => SortStageView::Done,
            SortStage::Failed(e) => SortStageView::Failed(e@),
        }
    }
}

/// The sorting of commits by the history of a reference. Where the sorted
/// list goes back to its file, every entry is enriched before it is written.
#[derive(Debug)]
pub struct SortSession {
    /// The reference by whose history the commits are ordered.
    pub reference: String,
    /// The commits to sort.
    pub infos: Vec<CommitInfo>,
    /// The file to write the sorted list to, if it goes to a file.
    pub target: Option<String>,
    /// The modelines of that file.
    pub modelines: Vec<String>,
    /// The entries of that file, as read.
    pub entries: Vec<CommitEntry>,
    /// The number of sorted commits.
    pub updated: usize,
    /// The text to print, if the sorted list is printed.
    pub printed: String,
    /// The sorted entries that are still to be enriched.
    pub rest: Vec<CommitEntry>,
    /// The comments of the entry that is being enriched.
    pub comments: Vec<String>,
    /// The sorted entries that are ready to be written.
    pub ready: Vec<CommitEntry>,
    /// What the sorting waits for.
    pub stage: SortStage,
}

/// What a `SortSession` holds, as character sequences.
pub ghost struct SortSessionView {
    pub reference: Seq<char>,
    pub infos: Seq<CommitView>,
    pub target: Option<Seq<char>>,
    pub modelines: Seq<Seq<char>>,
    pub entries: Seq<EntryView>,
    pub updated: int,
    pub printed: Seq<char>,
    pub rest: Seq<EntryView>,
    pub comments: Seq<Seq<char>>,
    pub ready: Seq<EntryView>,
    pub stage: SortStageView,
}

impl View for SortSession {
    type V = SortSessionView;

    open spec fn view(&self) -> SortSessionView {
        SortSessionView {
            reference: self.reference@,
            infos: commit_views(self.infos@),
            target: opt_text(self.target),
            modelines: texts(self.modelines@),
            entries: entry_views(self.entries@),
            updated: self.updated as int,
            printed: self.printed@,
            rest: entry_views(self.rest@),
            comments: texts(self.comments@),
            ready: entry_views(self.ready@),
            stage: self.stage@,
        }
    }
}

/// The text that shows the commits `cs`: the line of each, ended by a line
/// feed.
pub open spec fn print_lines(cs: Seq<CommitView>) -> Seq<char>
    decreases cs.len(),
{
    if cs.len() == 0 {
        Seq::empty()
    } else {
        print_lines(cs.drop_last()) + line_of(cs.last()) + line_feed()
    }
}

impl SortSessionView {
    /// The sorting of `infos` before any answer. With `target` the sorted
    /// list goes to that file, which holds `modelines` and `entries`.
    pub open spec fn begin(
        reference: Seq<char>,
        infos: Seq<CommitView>,
        target: Option<Seq<char>>,
        modelines: Seq<Seq<char>>,
        entries: Seq<EntryView>,
    ) -> SortSessionView {
        SortSessionView {
            reference,
            infos,
            target,
            modelines,
            entries,
            updated: 0,
            printed: Seq::empty(),
            rest: Seq::empty(),
            comments: Seq::empty(),
            ready: Seq::empty(),
            stage: SortStageView::Listing,
        }
    }

    /// The question that the sorting waits for.
    pub open spec fn pending(self) -> Option<QueryView> {
        match self.stage {
            SortStageView::Listing => Some(
                QueryView::ListCommits { range: self.reference, order: ListOrder::Topological },
            ),
            SortStageView::Enriching(e) => e.pending(),
            SortStageView::Done => None,
            SortStageView::Failed(_) => None,
        }
    }

    /// The sorting with `ready` as the entries ready to be written, turning
    /// to the first of the entries `queue` that lacks a field, or done if
    /// there is none. An entry that lacks nothing is ready as it is.
    pub open spec fn next_entry(self, queue: Seq<EntryView>, ready: Seq<EntryView>)
        -> SortSessionView
        decreases queue.len(),
    {
        if queue.len() == 0 {
            SortSessionView { rest: queue, ready, stage: SortStageView::Done, ..self }
        } else {
            let e = EnrichmentView::begin(queue[0].commit);
            if e.stage == EnrichStage::Done {
                self.next_entry(queue.skip(1), ready.push(queue[0]))
            } else {
                SortSessionView {
                    rest: queue.skip(1),
                    comments: queue[0].comments,
                    ready,
                    stage: SortStageView::Enriching(e),
                    ..self
                }
            }
        }
    }

    /// The sorting after the answer to its pending question.
    pub open spec fn resume(self, reply: ReplyView) -> SortSessionView {
        match self.stage {
            SortStageView::Listing => if !reply.success {
                SortSessionView {
                    stage: SortStageView::Failed(SortErrorView::ListingFailed(reply.diagnostics)),
                    ..self
                }
            } else {
                match sort_spec(hashes_of(self.infos), reply.output) {
                    Err(missing) => SortSessionView {
                        stage: SortStageView::Failed(SortErrorView::CommitsNotFound(missing)),
                        ..self
                    },
                    Ok(hashes) => {
                        let sorted = attach(hashes, self.infos);
                        let s = SortSessionView { updated: sorted.len() as int, ..self };
                        if self.target is Some {
                            s.next_entry(reorder(self.entries, sorted), Seq::empty())
                        } else {
                            SortSessionView {
                                printed: print_lines(sorted),
                                stage: SortStageView::Done,
                                ..s
                            }
                        }
                    },
                }
            },
            SortStageView::Enriching(e) => {
                let e = e.resume(reply);
                if e.stage == EnrichStage::Done {
                    self.next_entry(
                        self.rest,
                        self.ready.push(EntryView { comments: self.comments, commit: e.commit }),
                    )
                } else {
                    SortSessionView { stage: SortStageView::Enriching(e), ..self }
                }
            },
            SortStageView::Done => self,
            SortStageView::Failed(_) => self,
        }
    }

    /// What the sorting ends with once it is done: the file to write, with
    /// the entries in sorted order, or the text to print.
    pub open spec fn outcome(self) -> SortOutcomeView {
        match self.target {
            Some(path) => SortOutcomeView::Rewrite {
                path,
                content: serialize_spec(self.modelines, self.ready),
                updated: self.updated,
            },
            None => SortOutcomeView::Print(self.printed),
        }
    }
}

/// The entry `e` with its commit enriched from the repository `repo`.
pub open spec fn enriched_entry(e: EntryView, repo: spec_fn(QueryView) -> ReplyView) -> EntryView {
    EntryView { comments: e.comments, commit: enriched_in(e.commit, repo) }
}

/// The entries `es`, each with its commit enriched from the repository.
pub open spec fn enriched_entries(es: Seq<EntryView>, repo: spec_fn(QueryView) -> ReplyView) -> Seq<
    EntryView,
>
    decreases es.len(),
{
    if es.len() == 0 {
        Seq::empty()
    } else {
        seq![enriched_entry(es[0], repo)] + enriched_entries(es.skip(1), repo)
    }
}

/// How a sorting ends.
pub ghost enum SortReport {
    /// With something to print or to write.
    Sorted(SortOutcomeView),
    /// Without a result.
    Failed(SortErrorView),
}

impl SortSessionView {
    /// The sorting after the repository `repo` has answered its pending
    /// question; as it is, if it waits for none.
    pub open spec fn answered(self, repo: spec_fn(QueryView) -> ReplyView) -> SortSessionView {
        match self.pending() {
            Some(q) => self.resume(repo(q)),
            None => self,
        }
    }

    /// The sorting after `repo` has answered `steps` questions in a row.
    pub open spec fn run(self, repo: spec_fn(QueryView) -> ReplyView, steps: nat)
        -> SortSessionView
        decreases steps,
    {
        if steps == 0 {
            self
        } else {
            self.answered(repo).run(repo, (steps - 1) as nat)
        }
    }

    /// What the sorting ends with once `sorted` are the commits in order:
    /// the file to write, with its entries in that order and enriched from
    /// the repository `repo`, or the lines to print.
    pub open spec fn sorted_outcome(
        self,
        sorted: Seq<CommitView>,
        repo: spec_fn(QueryView) -> ReplyView,
    ) -> SortOutcomeView {
        match self.target {
            Some(path) => SortOutcomeView::Rewrite {
                path,
                content: serialize_spec(
                    self.modelines,
                    enriched_entries(reorder(self.entries, sorted), repo),
                ),
                updated: sorted.len() as int,
            },
            None => SortOutcomeView::Print(print_lines(sorted)),
        }
    }

    /// What the sorting ends with in the repository `repo`.
    pub open spec fn report(self, repo: spec_fn(QueryView) -> ReplyView) -> SortReport {
        match self.stage {
            SortStageView::Listing => {
                let listing = repo(
                    QueryView::ListCommits {
                        range: self.reference,
                        order: ListOrder::Topological,
                    },
                );
                if !listing.success {
                    SortReport::Failed(SortErrorView::ListingFailed(listing.diagnostics))
                } else {
                    match sort_spec(hashes_of(self.infos), listing.output) {
                        Err(missing) => SortReport::Failed(SortErrorView::CommitsNotFound(missing)),
                        Ok(hashes) => SortReport::Sorted(
                            self.sorted_outcome(attach(hashes, self.infos), repo),
                        ),
                    }
                }
            },
            SortStageView::Enriching(e) => SortReport::Sorted(
                (SortSessionView {
                    ready: self.ready.push(
                        EntryView { comments: self.comments, commit: e.outcome(repo) },
                    ) + enriched_entries(self.rest, repo),
                    ..self
                }).outcome(),
            ),
            SortStageView::Done => SortReport::Sorted(self.outcome()),
            SortStageView::Failed(e) => SortReport::Failed(e),
        }
    }
}

/// What a sorting of `infos` by the history of `reference` ends with in
/// the repository `repo`. The history is listed, ancestors first; if that
/// fails, so does the sorting, and so it does if a commit is not in the
/// history. Else the commits are put in the order of the history. With a
/// `target` the entries of that file are put in the same order, each is
/// enriched from the repository, and the file is written anew; without,
/// the sorted commits are printed.
pub open spec fn sort_report(
    reference: Seq<char>,
    infos: Seq<CommitView>,
    target: Option<Seq<char>>,
    modelines: Seq<Seq<char>>,
    entries: Seq<EntryView>,
    repo: spec_fn(QueryView) -> ReplyView,
) -> SortReport {
    SortSessionView::begin(reference, infos, target, modelines, entries).report(repo)
}

impl SortSessionView {
    /// Whether the sorting is over: done, or failed.
    pub open spec fn is_over(self) -> bool {
        self.stage is Done || self.stage is Failed
    }

    /// Whether the sorting is in order: where it waits for an answer to an
    /// enrichment, that one is not over.
    pub open spec fn is_sound(self) -> bool {
        match self.stage {
            SortStageView::Enriching(e) => e.stage != EnrichStage::Done,
            _ => true,
        }
    }

    /// The entries that the sorting will have to enrich once the repository
    /// `repo` has listed the history: those of the file, if the sorted list
    /// goes to a file and the commits can be sorted.
    pub open spec fn entries_to_enrich(self, repo: spec_fn(QueryView) -> ReplyView) -> Seq<
        EntryView,
    > {
        let listing = repo(
            QueryView::ListCommits { range: self.reference, order: ListOrder::Topological },
        );
        match sort_spec(hashes_of(self.infos), listing.output) {
            Ok(hashes) => if listing.success && self.target is Some {
                reorder(self.entries, attach(hashes, self.infos))
            } else {
                Seq::empty()
            },
            Err(_) => Seq::empty(),
        }
    }

    /// The number of answers that the sorting can still take in the
    /// repository `repo`: at most three for each entry to enrich.
    pub open spec fn budget(self, repo: spec_fn(QueryView) -> ReplyView) -> nat {
        match self.stage {
            SortStageView::Listing => 1 + 3 * self.entries_to_enrich(repo).len(),
            SortStageView::Enriching(e) => e.budget() + 3 * self.rest.len(),
            SortStageView::Done => 0,
            SortStageView::Failed(_) => 0,
        }
    }
}

fn print_commits(commits: &Vec<CommitInfo>) -> (r: String)
    ensures
        r@ == print_lines(commit_views(commits@)),
{
    let mut r = String::new();
    let ghost cs = commit_views(commits@);
    let mut i: usize = 0;
    proof {
        assert(cs.take(0) =~= Seq::<CommitView>::empty());
    }
    while i < commits.len()
        invariant
            i <= commits.len(),
            cs == commit_views(commits@),
            r@ == print_lines(cs.take(i as int)),
        decreases commits.len() - i,
    {
        proof {
            assert(cs.take(i + 1).drop_last() =~= cs.take(i as int));
            assert(cs.take(i + 1).last() == commits@[i as int]@);
            reveal_strlit("\n");
            assert("\n"@ =~= line_feed());
        }
        r.append(commits[i].to_line().as_str());
        r.append("\n");
        i += 1;
    }
    proof {
        assert(cs.take(commits.len() as int) =~= cs);
    }
    r
}

impl SortSession {
    /// The question to ask next; none once the sorting is over.
    pub fn pending(&self) -> (q: Option<Query>)
        ensures
            opt_query(q) == self@.pending(),
    {
        match &self.stage {
            SortStage::Listing => Some(
                Query::ListCommits {
                    range: self.reference.clone(),
                    order: ListOrder::Topological,
                },
            ),
            SortStage::Enriching(e) => e.pending(),
            SortStage::Done => None,
            SortStage::Failed(_) => None,
        }
    }

    fn next_entry(self) -> (r: Self)
        ensures
            r@ == self@.next_entry(self@.rest, self@.ready),
    {
        let ghost start = self@;
        let mut session = self;
        let mut looking = true;
        while looking
            invariant
                looking ==> start.next_entry(start.rest, start.ready) == session@.next_entry(
                    session@.rest,
                    session@.ready,
                ),
                !looking ==> start.next_entry(start.rest, start.ready) == session@,
            decreases session.rest.len() + (if looking { 1int } else { 0int }),
        {
            let ghost before = session@;
            let (first, rest) = pop_entry(session.rest);
            match first {
                None => {
                    session = SortSession { rest, stage: SortStage::Done, ..session };
                    looking = false;
                    proof {
                        assert(session@.rest =~= before.rest);
                        assert(before.next_entry(before.rest, before.ready) == session@);
                    }
                },
                Some(entry) => {
                    let e = Enrichment::begin(entry.commit);
                    match e.stage {
                        EnrichStage::Done => {
                            let mut ready = session.ready;
                            ready.push(CommitEntry { comments: entry.comments, commit: e.commit });
                            session = SortSession { rest, ready, ..session };
                            proof {
                                assert(session@.ready =~= before.ready.push(before.rest[0]));
                                lemma_next_entry_from(
                                    session@,
                                    before,
                                    session@.rest,
                                    session@.ready,
                                );
                            }
                        },
                        _ => {
                            session = SortSession {
                                rest,
                                comments: entry.comments,
                                stage: SortStage::Enriching(e),
                                ..session
                            };
                            looking = false;
                            proof {
                                assert(before.next_entry(before.rest, before.ready) == session@);
                            }
                        },
                    }
                },
            }
        }
        session
    }

    /// Takes the answer to the pending question.
    pub fn resume(self, reply: &Reply) -> (r: Self)
        ensures
            r@ == self@.resume(reply@),
    {
        match self.stage {
            SortStage::Listing => {
                if !reply.success {
                    return SortSession {
                        stage: SortStage::Failed(
                            SortError::ListingFailed(reply.diagnostics.clone()),
                        ),
                        ..self
                    };
                }
                let hashes = CommitsParser::extract_hashes(self.infos.as_slice());
                match sort_commits_topologically(hashes, reply.output.as_str()) {
                    Err(e) => SortSession { stage: SortStage::Failed(e), ..self },
                    Ok(sorted_hashes) => {
                        let sorted = attach_infos(&sorted_hashes, &self.infos);
                        if self.target.is_some() {
                            let ordered = reorder_entries(&self.entries, &sorted);
                            let none: Vec<CommitEntry> = Vec::new();
                            proof {
                                assert(entry_views(none@) =~= Seq::<EntryView>::empty());
                            }
                            let session = SortSession {
                                updated: sorted.len(),
                                rest: ordered,
                                ready: none,
                                stage: SortStage::Done,
                                ..self
                            };
                            proof {
                                lemma_next_entry_from(
                                    session@,
                                    SortSessionView { updated: sorted.len() as int, ..self@ },
                                    session@.rest,
                                    session@.ready,
                                );
                            }
                            session.next_entry()
                        } else {
                            SortSession {
                                updated: sorted.len(),
                                printed: print_commits(&sorted),
                                stage: SortStage::Done,
                                ..self
                            }
                        }
                    },
                }
            },
            SortStage::Enriching(e) => {
                let e = e.resume(reply);
                match e.stage {
                    EnrichStage::Done => {
                        let mut ready = self.ready;
                        let ghost before = entry_views(ready@);
                        let entry = CommitEntry {
                            comments: clone_strings(&self.comments),
                            commit: e.commit,
                        };
                        ready.push(entry);
                        proof {
                            assert(entry_views(ready@) =~= before.push(entry@));
                        }
                        let session = SortSession { ready, stage: SortStage::Done, ..self };
                        proof {
                            lemma_next_entry_from(session@, self@, session@.rest, session@.ready);
                        }
                        session.next_entry()
                    },
                    _ => SortSession { stage: SortStage::Enriching(e), ..self },
                }
            },
            SortStage::Done => SortSession { stage: SortStage::Done, ..self },
            SortStage::Failed(e) => SortSession { stage: SortStage::Failed(e), ..self },
        }
    }

    /// The result of the sorting: what to print or write, or the failure;
    /// none while the sorting waits for an answer.
    pub fn finish(self) -> (r: Option<Result<SortOutcome, SortError>>)
        ensures
            match self@.stage {
                SortStageView::Done => r matches Some(Ok(outcome)) && outcome@ == self@.outcome(),
                SortStageView::Failed(e) => r matches Some(Err(err)) && err@ == e,
                _ => r is None,
            },
    {
        match self.stage {
            SortStage::Done => {
                match self.target {
                    Some(path) => Some(
                        Ok(
                            SortOutcome::Rewrite {
                                file: CommitsParser::write_to_file(
                                    path.as_str(),
                                    &self.modelines,
                                    &self.ready,
                                ),
                                updated: self.updated,
                            },
                        ),
                    ),
                    None => Some(Ok(SortOutcome::Print(self.printed))),
                }
            },
            SortStage::Failed(e) => Some(Err(e)),
            _ => None,
        }
    }
}

/// The first of `queue`, if it has one, and the others.
fn pop_entry(queue: Vec<CommitEntry>) -> (r: (Option<CommitEntry>, Vec<CommitEntry>))
    ensures
        match r.0 {
            Some(first) => queue@.len() > 0 && first@ == entry_views(queue@)[0] && entry_views(r.1@)
                == entry_views(queue@).skip(1),
            None => queue@.len() == 0 && r.1@.len() == 0,
        },
{
    let mut queue = queue;
    if queue.len() == 0 {
        (None, queue)
    } else {
        let ghost before = entry_views(queue@);
        let first = queue.remove(0);
        proof {
            assert(entry_views(queue@) =~= before.skip(1));
        }
        (Some(first), queue)
    }
}

/// The sorting that `command` starts; none where the commit-list file holds
/// no commit. The commits to sort are those of the file with the content
/// `content`, if a file is named, else those named directly. The sorted
/// list goes back to the file if that is asked for and a file is named.
pub open spec fn command_spec(
    commits: Seq<Seq<char>>,
    commits_file: Option<Seq<char>>,
    in_place: bool,
    reference: Seq<char>,
    content: Seq<char>,
) -> Option<SortSessionView> {
    match commits_file {
        Some(path) => {
            let (modelines, entries) = parse_spec(content);
            if entries.len() == 0 {
                None
            } else if in_place {
                Some(
                    SortSessionView::begin(
                        reference,
                        commits_of(entries),
                        Some(path),
                        modelines,
                        entries,
                    ),
                )
            } else {
                Some(
                    SortSessionView::begin(
                        reference,
                        commits_of(entries),
                        None,
                        Seq::empty(),
                        Seq::empty(),
                    ),
                )
            }
        },
        None => Some(
            SortSessionView::begin(
                reference,
                bare_commits(commits),
                None,
                Seq::empty(),
                Seq::empty(),
            ),
        ),
    }
}

/// Starts the sorting of the commits that `args` names. `file_content` is
/// what the commit-list file holds, if `args` names one. Fails if that file
/// holds no commit.
pub fn command(args: Args, file_content: &str) -> (r: Result<SortSession, ParseError>)
    ensures
        match r {
            Ok(session) => command_spec(
                texts(args.commits@),
                opt_text(args.commits_file),
                args.in_place,
                args.reference@,
                file_content@,
            ) == Some(session@),
            Err(e) => e == ParseError::EmptyInput && command_spec(
                texts(args.commits@),
                opt_text(args.commits_file),
                args.in_place,
                args.reference@,
                file_content@,
            ) is None,
        },
{
    let Args { commits, commits_file, in_place, reference } = args;
    let file = match commits_file {
        Some(path) => Some(CommitsFile { path, content: file_content.to_string() }),
        None => None,
    };
    let (infos, path) = match CommitsParser::get_commits(commits, file) {
        Ok(found) => found,
        Err(e) => {
            return Err(e);
        },
    };
    proof {
        assert(commit_views(infos@).len() == infos.len());
        assert(commits_of(parse_spec(file_content@).1).len() == parse_spec(file_content@).1.len());
    }
    let mut target: Option<String> = None;
    let mut modelines: Vec<String> = Vec::new();
    let mut entries: Vec<CommitEntry> = Vec::new();
    proof {
        assert(texts(modelines@) =~= Seq::<Seq<char>>::empty());
        assert(entry_views(entries@) =~= Seq::<EntryView>::empty());
    }
    if in_place {
        if let Some(path) = path {
            let file = CommitsFile { path: path.clone(), content: file_content.to_string() };
            match CommitsParser::read_from_file(&file) {
                Ok((m, e)) => {
                    target = Some(path);
                    modelines = m;
                    entries = e;
                },
                Err(e) => {
                    return Err(e);
                },
            }
        }
    }
    let session = SortSession {
        reference,
        infos,
        target,
        modelines,
        entries,
        updated: 0,
        printed: String::new(),
        rest: Vec::new(),
        comments: Vec::new(),
        ready: Vec::new(),
        stage: SortStage::Listing,
    };
    proof {
        assert(entry_views(session.rest@) =~= Seq::<EntryView>::empty());
        assert(entry_views(session.ready@) =~= Seq::<EntryView>::empty());
        assert(texts(session.comments@) =~= Seq::<Seq<char>>::empty());
    }
    Ok(session)
}

/// Where the sorting turns next depends on the entries handed to it, not on
/// what it waited for before.
pub proof fn lemma_next_entry_from(
    a: SortSessionView,
    b: SortSessionView,
    queue: Seq<EntryView>,
    ready: Seq<EntryView>,
)
    requires
        a == (SortSessionView { rest: a.rest, ready: a.ready, stage: a.stage, ..b }),
    ensures
        a.next_entry(queue, ready) == b.next_entry(queue, ready),
    decreases queue.len(),
{
    if queue.len() > 0 {
        lemma_next_entry_from(a, b, queue.skip(1), ready.push(queue[0]));
    }
}

proof fn lemma_sort_next_entry(
    s: SortSessionView,
    queue: Seq<EntryView>,
    ready: Seq<EntryView>,
    repo: spec_fn(QueryView) -> ReplyView,
)
    ensures
        s.next_entry(queue, ready).report(repo) == SortReport::Sorted(
            (SortSessionView { ready: ready + enriched_entries(queue, repo), ..s }).outcome(),
        ),
    decreases queue.len(),
{
    if queue.len() == 0 {
        assert(ready + enriched_entries(queue, repo) =~= ready);
    } else {
        let e = EnrichmentView::begin(queue[0].commit);
        lemma_enrichment_outcome(queue[0].commit, repo, 0);
        if e.stage == EnrichStage::Done {
            lemma_sort_next_entry(s, queue.skip(1), ready.push(queue[0]), repo);
            assert(enriched_entry(queue[0], repo) == queue[0]);
            assert(ready.push(queue[0]) + enriched_entries(queue.skip(1), repo) =~= ready
                + enriched_entries(queue, repo));
        } else {
            assert(ready.push(enriched_entry(queue[0], repo)) + enriched_entries(
                queue.skip(1),
                repo,
            ) =~= ready + enriched_entries(queue, repo));
        }
    }
}

/// An answer of the repository does not change what a sorting ends with.
pub proof fn lemma_sort_answer(s: SortSessionView, repo: spec_fn(QueryView) -> ReplyView)
    ensures
        s.answered(repo).report(repo) == s.report(repo),
{
    match s.stage {
        SortStageView::Listing => {
            let listing = repo(s.pending()->0);
            if listing.success {
                match sort_spec(hashes_of(s.infos), listing.output) {
                    Ok(hashes) => {
                        let sorted = attach(hashes, s.infos);
                        let t = SortSessionView { updated: sorted.len() as int, ..s };
                        if s.target is Some {
                            lemma_sort_next_entry(
                                t,
                                reorder(s.entries, sorted),
                                Seq::empty(),
                                repo,
                            );
                            assert(Seq::<EntryView>::empty() + enriched_entries(
                                reorder(s.entries, sorted),
                                repo,
                            ) =~= enriched_entries(reorder(s.entries, sorted), repo));
                        }
                    },
                    Err(_) => {},
                }
            }
        },
        SortStageView::Enriching(e) => {
            lemma_enrichment_answer(e, repo);
            if e.pending() is Some {
                let e2 = e.answered(repo);
                if e2.stage == EnrichStage::Done {
                    lemma_sort_next_entry(
                        s,
                        s.rest,
                        s.ready.push(EntryView { comments: s.comments, commit: e2.commit }),
                        repo,
                    );
                }
            }
        },
        SortStageView::Done => {},
        SortStageView::Failed(_) => {},
    }
}

/// However many answers a sorting takes, what it ends with stays the same.
pub proof fn lemma_sort_run(s: SortSessionView, repo: spec_fn(QueryView) -> ReplyView, steps: nat)
    ensures
        s.run(repo, steps).report(repo) == s.report(repo),
    decreases steps,
{
    if steps > 0 {
        lemma_sort_answer(s, repo);
        lemma_sort_run(s.answered(repo), repo, (steps - 1) as nat);
    }
}

/// The sorting in a repository: once the sorting is over, however many
/// answers that took, it ends with what `sort_report` says: if it is done,
/// with that outcome; if it has failed, with that failure.
pub proof fn lemma_sort_outcome(
    reference: Seq<char>,
    infos: Seq<CommitView>,
    target: Option<Seq<char>>,
    modelines: Seq<Seq<char>>,
    entries: Seq<EntryView>,
    repo: spec_fn(QueryView) -> ReplyView,
    steps: nat,
)
    ensures
        ({
            let end = SortSessionView::begin(reference, infos, target, modelines, entries).run(
                repo,
                steps,
            );
            let report = sort_report(reference, infos, target, modelines, entries, repo);
            &&& end.stage is Done ==> report == SortReport::Sorted(end.outcome())
            &&& end.stage matches SortStageView::Failed(e) ==> report == SortReport::Failed(e)
        }),
{
    lemma_sort_run(
        SortSessionView::begin(reference, infos, target, modelines, entries),
        repo,
        steps,
    );
}

proof fn lemma_sort_next_entry_cost(
    s: SortSessionView,
    queue: Seq<EntryView>,
    ready: Seq<EntryView>,
    repo: spec_fn(QueryView) -> ReplyView,
)
    ensures
        s.next_entry(queue, ready).is_sound(),
        s.next_entry(queue, ready).budget(repo) <= 3 * queue.len(),
    decreases queue.len(),
{
    if queue.len() > 0 {
        lemma_sort_next_entry_cost(s, queue.skip(1), ready.push(queue[0]), repo);
    }
}

/// Every answer brings a sorting closer to its end, and leaves it in
/// order.
pub proof fn lemma_sort_progress(s: SortSessionView, repo: spec_fn(QueryView) -> ReplyView)
    requires
        s.is_sound(),
        !s.is_over(),
    ensures
        s.answered(repo).is_sound(),
        s.answered(repo).budget(repo) < s.budget(repo),
{
    match s.stage {
        SortStageView::Listing => {
            let listing = repo(s.pending()->0);
            if listing.success {
                match sort_spec(hashes_of(s.infos), listing.output) {
                    Ok(hashes) => {
                        let sorted = attach(hashes, s.infos);
                        if s.target is Some {
                            lemma_sort_next_entry_cost(
                                SortSessionView { updated: sorted.len() as int, ..s },
                                reorder(s.entries, sorted),
                                Seq::empty(),
                                repo,
                            );
                        }
                    },
                    Err(_) => {},
                }
            }
        },
        SortStageView::Enriching(e) => {
            lemma_enrichment_progress(e, repo);
            let e2 = e.answered(repo);
            if e2.stage == EnrichStage::Done {
                lemma_sort_next_entry_cost(
                    s,
                    s.rest,
                    s.ready.push(EntryView { comments: s.comments, commit: e2.commit }),
                    repo,
                );
            }
        },
        _ => {},
    }
}

/// The sorting ends: whatever the repository answers, a sorting that is in
/// order is over once the repository has answered as often as the
/// sorting's budget says, or more often.
pub proof fn lemma_sort_end(s: SortSessionView, repo: spec_fn(QueryView) -> ReplyView, steps: nat)
    requires
        s.is_sound(),
        steps >= s.budget(repo),
    ensures
        s.run(repo, steps).is_over(),
    decreases steps,
{
    if steps > 0 {
        if !s.is_over() {
            lemma_sort_progress(s, repo);
        }
        lemma_sort_end(s.answered(repo), repo, (steps - 1) as nat);
    }
}

/// The sorting is right and ends: in any repository, after as many answers
/// as its budget says the sorting is over, with what `sort_report` says.
pub proof fn lemma_sort_command(
    reference: Seq<char>,
    infos: Seq<CommitView>,
    target: Option<Seq<char>>,
    modelines: Seq<Seq<char>>,
    entries: Seq<EntryView>,
    repo: spec_fn(QueryView) -> ReplyView,
)
    ensures
        ({
            let start = SortSessionView::begin(reference, infos, target, modelines, entries);
            let end = start.run(repo, start.budget(repo));
            match sort_report(reference, infos, target, modelines, entries, repo) {
                SortReport::Sorted(outcome) => end.stage is Done && end.outcome() == outcome,
                SortReport::Failed(e) => end.stage == SortStageView::Failed(e),
            }
        }),
{
    let start = SortSessionView::begin(reference, infos, target, modelines, entries);
    lemma_sort_end(start, repo, start.budget(repo));
    lemma_sort_outcome(reference, infos, target, modelines, entries, repo, start.budget(repo));
}

} // verus!
