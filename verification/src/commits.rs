//! Commit records and the commit-list file format.
//!
//! A commit list is a text file with one commit per line: the hash, then
//! optionally a Change-Id and a title. Comment lines and blank lines that
//! precede a commit line belong to that commit; leading editor modelines are
//! kept apart.

use crate::message::{change_id_in, find_change_id, get_commit_title, title_in};
use crate::text::{
    begins_with, blank, chars_of, clone_strings, is_blank, join, join_strings,
    lemma_no_words_iff_blank, line_feed, lines, opt_text, rows, split_lines, split_words,
    starts_with, string_of, texts, trim, trimmed, words,
};
use crate::vcs::{Reply, ReplyView};
use vstd::prelude::*;
use vstd::string::*;

verus! {

/// A commit: its hash, and, where known, its Change-Id and its title.
#[derive(Debug)]
pub struct CommitInfo {
    /// The hash, abbreviated or in full.
    pub hash: String,
    /// The Change-Id in the commit's message.
    pub change_id: Option<String>,
    /// The first line of the commit's message.
    pub title: Option<String>,
}

/// What a `CommitInfo` holds, as character sequences.
pub ghost struct CommitView {
    pub hash: Seq<char>,
    pub change_id: Option<Seq<char>>,
    pub title: Option<Seq<char>>,
}

impl View for CommitInfo {
    type V = CommitView;

    open spec fn view(&self) -> CommitView {
        CommitView {
            hash: self.hash@,
            change_id: opt_text(self.change_id),
            title: opt_text(self.title),
        }
    }
}

impl Clone for CommitInfo {
    fn clone(&self) -> (r: Self)
        ensures
            r == *self,
    {
        CommitInfo {
            hash: self.hash.clone(),
            change_id: match &self.change_id {
                Some(s) => Some(s.clone()),
                None => None,
            },
            title: match &self.title {
                Some(s) => Some(s.clone()),
                None => None,
            },
        }
    }
}

/// Why a commit list or one of its lines could not be read.
#[derive(Debug, Clone, Copy, PartialEq, Eq, Structural)]
pub enum ParseError {
    /// The line holds nothing but white space.
    EmptyLine,
    /// The file holds no commit line.
    EmptyInput,
}

impl ParseError {
    /// The message shown to the user.
    pub fn message(&self) -> (r: String)
        ensures
            r@ == match *self {
                ParseError::EmptyLine => "Empty line"@,
                ParseError::EmptyInput => "No commits found in file"@,
            },
    {
        match self {
            ParseError::EmptyLine => "Empty line".to_string(),
            ParseError::EmptyInput => "No commits found in file".to_string(),
        }
    }
}

/// Whether a token of a commit line is a Change-Id: the letter `I` followed
/// by forty more characters.
pub open spec fn is_change_id(token: Seq<char>) -> bool {
    token.len() == 41 && token[0] == 'I'
}

/// The last Change-Id among `tokens`, if there is one.
pub open spec fn last_change_id(tokens: Seq<Seq<char>>) -> Option<Seq<char>>
    decreases tokens.len(),
{
    if tokens.len() == 0 {
        None
    } else if is_change_id(tokens.last()) {
        Some(tokens.last())
    } else {
        last_change_id(tokens.drop_last())
    }
}

/// The tokens of `tokens` that are no Change-Id, in order.
pub open spec fn title_words(tokens: Seq<Seq<char>>) -> Seq<Seq<char>> {
    tokens.filter(|t: Seq<char>| !is_change_id(t))
}

/// The title that `tokens` spell: those that are no Change-Id, joined by
/// single spaces; none if there is no such token.
pub open spec fn title_of(tokens: Seq<Seq<char>>) -> Option<Seq<char>> {
    let parts = title_words(tokens);
    if parts.len() == 0 {
        None
    } else {
        Some(join(parts, blank()))
    }
}

/// The commit that a line of a commit list denotes: its first word is the
/// hash, the last later word that is a Change-Id is the Change-Id, and the
/// remaining words form the title. A line without words denotes none.
pub open spec fn parse_line_spec(line: Seq<char>) -> Option<CommitView> {
    let tokens = words(line);
    if tokens.len() == 0 {
        None
    } else {
        Some(
            CommitView {
                hash: tokens[0],
                change_id: last_change_id(tokens.skip(1)),
                title: title_of(tokens.skip(1)),
            },
        )
    }
}

/// The fields of a commit line, in the order in which it shows them.
pub open spec fn line_fields(c: CommitView) -> Seq<Seq<char>> {
    seq![c.hash] + (match c.change_id {
        Some(id) => seq![id],
        None => Seq::empty(),
    }) + (match c.title {
        Some(t) => seq![t],
        None => Seq::empty(),
    })
}

/// The line of a commit list that shows `c`: the hash, then the Change-Id if
/// present, then the title if present, separated by single spaces.
pub open spec fn line_of(c: CommitView) -> Seq<char> {
    join(line_fields(c), blank())
}

/// The number of characters of a full hash.
pub const FULL_HASH_LEN: usize = 40;

/// The commit `c` once the answer to the query for its message is known:
/// a commit without Change-Id takes the one in the message, if the query
/// succeeded and the message holds one.
pub open spec fn with_change_id(c: CommitView, message: ReplyView) -> CommitView {
    if c.change_id is None && message.success {
        CommitView { change_id: change_id_in(message.output), ..c }
    } else {
        c
    }
}

/// The commit `c` once the answer to the query for its full hash is known:
/// a hash that is not of full length gives way to the answer, trimmed, if
/// the query succeeded and the answer is of full length.
pub open spec fn with_full_hash(c: CommitView, expanded: ReplyView) -> CommitView {
    if c.hash.len() != FULL_HASH_LEN && expanded.success && trim(expanded.output).len()
        == FULL_HASH_LEN {
        CommitView { hash: trim(expanded.output), ..c }
    } else {
        c
    }
}

/// The commit `c` once the answer to the query for its subject is known: a
/// commit without title takes the answer, trimmed, if the query succeeded
/// and the answer is not blank.
pub open spec fn with_title(c: CommitView, subject: ReplyView) -> CommitView {
    if c.title is None {
        CommitView { title: title_in(subject), ..c }
    } else {
        c
    }
}

/// The commit `c` after full enrichment with the three answers: Change-Id,
/// then full hash, then title.
pub open spec fn enriched(
    c: CommitView,
    message: ReplyView,
    expanded: ReplyView,
    subject: ReplyView,
) -> CommitView {
    with_title(with_full_hash(with_change_id(c, message), expanded), subject)
}

/// Enrichment is idempotent: enriching a commit a second time with the same
/// answers changes nothing.
pub proof fn lemma_enrichment_is_idempotent(
    c: CommitView,
    message: ReplyView,
    expanded: ReplyView,
    subject: ReplyView,
)
    ensures
        with_change_id(with_change_id(c, message), message) == with_change_id(c, message),
        with_full_hash(with_full_hash(c, expanded), expanded) == with_full_hash(c, expanded),
        with_title(with_title(c, subject), subject) == with_title(c, subject),
        enriched(enriched(c, message, expanded, subject), message, expanded, subject) == enriched(
            c,
            message,
            expanded,
            subject,
        ),
{
}

/// Enrichment fills what is missing and leaves what is known: a Change-Id, a
/// full-length hash and a title that a commit has stay as they are, whatever
/// the answers.
pub proof fn lemma_enrichment_keeps_known_fields(
    c: CommitView,
    message: ReplyView,
    expanded: ReplyView,
    subject: ReplyView,
)
    ensures
        c.change_id is Some ==> enriched(c, message, expanded, subject).change_id == c.change_id,
        c.hash.len() == FULL_HASH_LEN ==> enriched(c, message, expanded, subject).hash == c.hash,
        c.title is Some ==> enriched(c, message, expanded, subject).title == c.title,
{
}

fn token_is_change_id(token: &Vec<char>) -> (b: bool)
    ensures
        b == is_change_id(token@),
{
    token.len() == 41 && token[0] == 'I'
}

impl CommitInfo {
    /// A commit of which only the hash is known.
    pub fn from_hash(hash: String) -> (r: Self)
        ensures
            r.hash == hash,
            r.change_id is None,
            r.title is None,
    {
        CommitInfo { hash, change_id: None, title: None }
    }

    /// Reads one line of a commit list: `hash [Change-Id] [title words...]`.
    /// Fails if and only if the line holds nothing but white space.
    pub fn parse_line(line: &str) -> (r: Result<Self, ParseError>)
        ensures
            match r {
                Ok(c) => parse_line_spec(line@) == Some(c@) && !is_blank(line@),
                Err(e) => e == ParseError::EmptyLine && parse_line_spec(line@) is None
                    && is_blank(line@),
            },
    {
        let chars = chars_of(line);
        let tokens = split_words(&chars);
        proof {
            lemma_no_words_iff_blank(line@);
        }
        if tokens.len() == 0 {
            return Err(ParseError::EmptyLine);
        }
        let hash = string_of(&tokens[0]);
        let mut change_id: Option<String> = None;
        let mut title_parts: Vec<String> = Vec::new();
        let ghost rest = words(line@).skip(1);
        let mut i: usize = 1;
        while i < tokens.len()
            invariant
                1 <= i <= tokens.len(),
                rows(tokens@) == words(line@),
                rest == words(line@).skip(1),
                opt_text(change_id) == last_change_id(rest.take(i - 1)),
                texts(title_parts@) == title_words(rest.take(i - 1)),
            decreases tokens.len() - i,
        {
            let ghost seen = rest.take(i - 1);
            let ghost next = rest.take(i as int);
            proof {
                assert(next.drop_last() =~= seen);
                assert(next.last() == tokens@[i as int]@);
                reveal(Seq::filter);
            }
            if token_is_change_id(&tokens[i]) {
                change_id = Some(string_of(&tokens[i]));
            } else {
                let ghost before = title_parts@;
                title_parts.push(string_of(&tokens[i]));
                proof {
                    assert(texts(title_parts@) =~= texts(before).push(tokens@[i as int]@));
                }
            }
            i += 1;
        }
        proof {
            assert(rest.take(tokens.len() - 1) =~= rest);
        }
        let title = if title_parts.len() == 0 {
            None
        } else {
            proof {
                reveal_strlit(" ");
                assert(" "@ =~= blank());
            }
            Some(join_strings(&title_parts, " "))
        };
        Ok(CommitInfo { hash, change_id, title })
    }

    /// The line of a commit list that shows this commit.
    pub fn to_line(&self) -> (r: String)
        ensures
            r@ == line_of(self@),
    {
        let mut parts: Vec<String> = Vec::new();
        parts.push(self.hash.clone());
        if let Some(change_id) = &self.change_id {
            parts.push(change_id.clone());
        }
        if let Some(title) = &self.title {
            parts.push(title.clone());
        }
        proof {
            reveal_strlit(" ");
            assert(" "@ =~= blank());
            assert(texts(parts@) =~= line_fields(self@));
        }
        join_strings(&parts, " ")
    }

    /// Whether the hash has the length of a full hash.
    pub fn has_full_hash(&self) -> (r: bool)
        ensures
            r == (self@.hash.len() == FULL_HASH_LEN),
    {
        self.hash.as_str().unicode_len() == FULL_HASH_LEN
    }

    /// Takes the Change-Id from the answer to the query for the commit's
    /// message, unless the commit has one already.
    pub fn fetch_change_id_if_missing(&mut self, message: &Reply)
        ensures
            final(self)@ == with_change_id(old(self)@, message@),
    {
        if self.change_id.is_none() && message.success {
            self.change_id = find_change_id(message.output.as_str());
        }
    }

    /// Replaces an abbreviated hash by the full hash in the answer to the
    /// query for it. A hash of full length stays; so does the hash where the
    /// query failed or its answer is not of full length.
    pub fn expand_hash_to_full(&mut self, expanded: &Reply)
        ensures
            final(self)@ == with_full_hash(old(self)@, expanded@),
    {
        if self.has_full_hash() || !expanded.success {
            return ;
        }
        let full = trimmed(&chars_of(expanded.output.as_str()));
        if full.len() == FULL_HASH_LEN {
            self.hash = string_of(&full);
        }
    }

    /// Takes the title from the answer to the query for the commit's
    /// subject, unless the commit has one already.
    pub fn set_title_if_missing(&mut self, subject: &Reply)
        ensures
            final(self)@ == with_title(old(self)@, subject@),
    {
        if self.title.is_none() {
            self.title = get_commit_title(subject);
        }
    }

    /// Expands the hash, then takes the title unless the commit has one
    /// already. `subject` answers the query for the subject of the commit
    /// under its expanded hash.
    pub fn fetch_title_if_missing(&mut self, expanded: &Reply, subject: &Reply)
        ensures
            final(self)@ == with_title(with_full_hash(old(self)@, expanded@), subject@),
    {
        self.expand_hash_to_full(expanded);
        self.set_title_if_missing(subject);
    }
}

/// A commit of a commit list, with the comment lines and blank lines that
/// precede it in the file.
#[derive(Debug)]
pub struct CommitEntry {
    /// The lines between the previous commit line and this one, as written.
    pub comments: Vec<String>,
    /// The commit.
    pub commit: CommitInfo,
}

/// What a `CommitEntry` holds, as character sequences.
pub ghost struct EntryView {
    pub comments: Seq<Seq<char>>,
    pub commit: CommitView,
}

impl View for CommitEntry {
    type V = EntryView;

    open spec fn view(&self) -> EntryView {
        EntryView { comments: texts(self.comments@), commit: self.commit@ }
    }
}

impl Clone for CommitEntry {
    fn clone(&self) -> (r: Self)
        ensures
            r@ == self@,
    {
        CommitEntry { comments: clone_strings(&self.comments), commit: self.commit.clone() }
    }
}

/// The views of a list of commits.
pub open spec fn commit_views(cs: Seq<CommitInfo>) -> Seq<CommitView> {
    Seq::new(cs.len(), |i: int| cs[i]@)
}

/// The views of a list of entries.
pub open spec fn entry_views(es: Seq<CommitEntry>) -> Seq<EntryView> {
    Seq::new(es.len(), |i: int| es[i]@)
}

/// The lines that show an entry: its comments, then its commit line.
pub open spec fn entry_lines(e: EntryView) -> Seq<Seq<char>> {
    e.comments.push(line_of(e.commit))
}

impl CommitEntry {
    /// The entry of `commit` with the comments that precede it.
    pub fn with_comments(commit: CommitInfo, comments: Vec<String>) -> (r: Self)
        ensures
            r.commit == commit,
            r.comments == comments,
    {
        CommitEntry { comments, commit }
    }

    /// The lines of the file that show this entry.
    pub fn to_lines(&self) -> (r: Vec<String>)
        ensures
            texts(r@) == entry_lines(self@),
    {
        let mut lines = clone_strings(&self.comments);
        lines.push(self.commit.to_line());
        proof {
            assert(texts(lines@) =~= entry_lines(self@));
        }
        lines
    }
}

/// Whether a line is an editor modeline: after trimming it begins with
/// `# vim:` or `# vi:`.
pub open spec fn is_modeline(line: Seq<char>) -> bool {
    let t = trim(line);
    starts_with(t, "# vim:"@) || starts_with(t, "# vi:"@)
}

/// The number of modelines at the head of `ls`.
pub open spec fn modeline_count(ls: Seq<Seq<char>>) -> nat
    decreases ls.len(),
{
    if ls.len() > 0 && is_modeline(ls[0]) {
        1 + modeline_count(ls.skip(1))
    } else {
        0
    }
}

/// Whether a line below the modelines is read as a commit line: it is not
/// blank and its first character that is no white space is not `#`.
pub open spec fn is_commit_line(line: Seq<char>) -> bool {
    let t = trim(line);
    t.len() > 0 && t[0] != '#'
}

/// The entries that the lines `ls` hold, where `pending` are the comment
/// lines read since the last commit line. Each commit line closes an entry
/// that takes the pending comments; a line that would be a commit line but
/// denotes no commit counts as a comment. Comments after the last commit
/// line belong to no entry.
pub open spec fn entries_of(ls: Seq<Seq<char>>, pending: Seq<Seq<char>>) -> Seq<EntryView>
    decreases ls.len(),
{
    if ls.len() == 0 {
        Seq::empty()
    } else if is_commit_line(ls[0]) {
        match parse_line_spec(trim(ls[0])) {
            Some(commit) => seq![EntryView { comments: pending, commit }] + entries_of(
                ls.skip(1),
                Seq::empty(),
            ),
            None => entries_of(ls.skip(1), pending.push(ls[0])),
        }
    } else {
        entries_of(ls.skip(1), pending.push(ls[0]))
    }
}

/// The modelines and the entries of a commit list with the given content.
pub open spec fn parse_spec(content: Seq<char>) -> (Seq<Seq<char>>, Seq<EntryView>) {
    let ls = lines(content);
    let k = modeline_count(ls) as int;
    (ls.take(k), entries_of(ls.skip(k), Seq::empty()))
}

/// The modeline written where a commit list has none.
pub open spec fn default_modeline() -> Seq<char> {
    "# vim: ft=gitbackportcommits"@
}

/// The lines that show the entries `es`, in order.
pub open spec fn entries_lines(es: Seq<EntryView>) -> Seq<Seq<char>>
    decreases es.len(),
{
    if es.len() == 0 {
        Seq::empty()
    } else {
        entries_lines(es.drop_last()) + entry_lines(es.last())
    }
}

/// The lines of a commit list: the modelines, or the default modeline if
/// there are none, then the lines of each entry.
pub open spec fn file_lines(modelines: Seq<Seq<char>>, es: Seq<EntryView>) -> Seq<Seq<char>> {
    (if modelines.len() == 0 {
        seq![default_modeline()]
    } else {
        modelines
    }) + entries_lines(es)
}

/// The content of a commit list: its lines, each ended by a line feed.
pub open spec fn serialize_spec(modelines: Seq<Seq<char>>, es: Seq<EntryView>) -> Seq<char> {
    join(file_lines(modelines, es), line_feed()) + line_feed()
}

/// The commits of the entries `es`, in order.
pub open spec fn commits_of(es: Seq<EntryView>) -> Seq<CommitView> {
    Seq::new(es.len(), |i: int| es[i].commit)
}

/// The hashes of the commits `cs`, in order.
pub open spec fn hashes_of(cs: Seq<CommitView>) -> Seq<Seq<char>> {
    Seq::new(cs.len(), |i: int| cs[i].hash)
}

/// The commits of which only the given hashes are known.
pub open spec fn bare_commits(hashes: Seq<Seq<char>>) -> Seq<CommitView> {
    Seq::new(hashes.len(), |i: int| CommitView { hash: hashes[i], change_id: None, title: None })
}

/// A commit-list file as its caller has read it, or is to write it.
#[derive(Debug)]
pub struct CommitsFile {
    /// Where the file is.
    pub path: String,
    /// What the file holds.
    pub content: String,
}

fn line_is_modeline(line: &Vec<char>) -> (b: bool)
    ensures
        b == is_modeline(line@),
{
    let t = trimmed(line);
    begins_with(&t, &chars_of("# vim:")) || begins_with(&t, &chars_of("# vi:"))
}

/// Reads and writes commit lists.
pub struct CommitsParser;

impl CommitsParser {
    /// Reads a commit list: the leading modelines, then the entries, each
    /// with the comments that precede it. Fails if there is no entry.
    pub fn parse(content: &str) -> (r: Result<(Vec<String>, Vec<CommitEntry>), ParseError>)
        ensures
            match r {
                Ok((modelines, entries)) => {
                    &&& texts(modelines@) == parse_spec(content@).0
                    &&& entry_views(entries@) == parse_spec(content@).1
                    &&& entries.len() > 0
                },
                Err(e) => e == ParseError::EmptyInput && parse_spec(content@).1.len() == 0,
            },
    {
        let chars = chars_of(content);
        let ls = split_lines(&chars);
        let ghost all = lines(content@);
        let mut modelines: Vec<String> = Vec::new();
        let mut i: usize = 0;
        proof {
            assert(all.skip(0) =~= all);
        }
        while i < ls.len() && line_is_modeline(&ls[i])
            invariant
                i <= ls.len(),
                rows(ls@) == all,
                modelines.len() == i,
                texts(modelines@) == all.take(i as int),
                i + modeline_count(all.skip(i as int)) == modeline_count(all),
            decreases ls.len() - i,
        {
            let ghost before = modelines@;
            modelines.push(string_of(&ls[i]));
            proof {
                assert(all.skip(i as int)[0] == all[i as int]);
                assert(all.skip(i as int).skip(1) =~= all.skip(i + 1));
                assert forall|j: int| 0 <= j < i + 1 implies texts(modelines@)[j] == all[j] by {
                    if j < i {
                        assert(texts(before)[j] == all.take(i as int)[j]);
                    }
                }
                assert(texts(modelines@) =~= all.take(i + 1));
            }
            i += 1;
        }
        proof {
            if i < ls.len() {
                assert(all.skip(i as int)[0] == all[i as int]);
            }
            assert(modeline_count(all) == i);
        }
        let ghost body = all.skip(i as int);
        let first = i;
        let mut entries: Vec<CommitEntry> = Vec::new();
        let mut pending: Vec<String> = Vec::new();
        proof {
            assert(body.skip(0) =~= body);
            assert(entry_views(entries@) + entries_of(body, Seq::empty()) =~= entries_of(
                body,
                Seq::empty(),
            ));
            assert(texts(pending@) =~= Seq::<Seq<char>>::empty());
        }
        while i < ls.len()
            invariant
                first <= i <= ls.len(),
                rows(ls@) == all,
                body == all.skip(first as int),
                entry_views(entries@) + entries_of(body.skip(i - first), texts(pending@))
                    == entries_of(body, Seq::empty()),
            decreases ls.len() - i,
        {
            let ghost rest = body.skip(i - first);
            proof {
                assert(rest[0] == ls@[i as int]@);
                assert(rest.skip(1) =~= body.skip(i + 1 - first));
            }
            let t = trimmed(&ls[i]);
            let mut is_comment = true;
            if t.len() > 0 && t[0] != '#' {
                let parsed = CommitInfo::parse_line(string_of(&t).as_str());
                match parsed {
                    Ok(commit) => {
                        let ghost before = entries@;
                        let ghost held = texts(pending@);
                        let mut comments: Vec<String> = Vec::new();
                        std::mem::swap(&mut comments, &mut pending);
                        let entry = CommitEntry::with_comments(commit, comments);
                        entries.push(entry);
                        is_comment = false;
                        proof {
                            assert(texts(pending@) =~= Seq::<Seq<char>>::empty());
                            assert(entry_views(entries@) =~= entry_views(before).push(
                                EntryView { comments: held, commit: commit@ },
                            ));
                            assert(entry_views(entries@) + entries_of(
                                rest.skip(1),
                                Seq::empty(),
                            ) =~= entry_views(before) + entries_of(rest, held));
                        }
                    },
                    Err(_) => {},
                }
            }
            if is_comment {
                let ghost held = pending@;
                pending.push(string_of(&ls[i]));
                proof {
                    assert(texts(pending@) =~= texts(held).push(rest[0]));
                }
            }
            i += 1;
        }
        if entries.len() == 0 {
            proof {
                assert(entry_views(entries@) + entries_of(
                    body.skip(i - first),
                    texts(pending@),
                ) =~= entries_of(body.skip(i - first), texts(pending@)));
            }
            return Err(ParseError::EmptyInput);
        }
        proof {
            assert(entry_views(entries@) + entries_of(
                body.skip(i - first),
                texts(pending@),
            ) =~= entry_views(entries@));
        }
        Ok((modelines, entries))
    }

    /// Writes a commit list: the modelines, or the default modeline where
    /// there are none, then each entry's comments and commit line, every line
    /// ended by a line feed.
    pub fn serialize(modelines: &Vec<String>, entries: &Vec<CommitEntry>) -> (r: String)
        ensures
            r@ == serialize_spec(texts(modelines@), entry_views(entries@)),
    {
        let mut all_lines: Vec<String> = if modelines.len() == 0 {
            let mut v: Vec<String> = Vec::new();
            v.push("# vim: ft=gitbackportcommits".to_string());
            v
        } else {
            clone_strings(modelines)
        };
        let ghost head = texts(all_lines@);
        let ghost es = entry_views(entries@);
        proof {
            assert(head =~= if modelines.len() == 0 {
                seq![default_modeline()]
            } else {
                texts(modelines@)
            });
            assert(es.take(0) =~= Seq::<EntryView>::empty());
            assert(head + entries_lines(es.take(0)) =~= head);
        }
        let mut i: usize = 0;
        while i < entries.len()
            invariant
                i <= entries.len(),
                es == entry_views(entries@),
                texts(all_lines@) == head + entries_lines(es.take(i as int)),
            decreases entries.len() - i,
        {
            let mut entry_lines = entries[i].to_lines();
            let ghost before = texts(all_lines@);
            let ghost added = texts(entry_lines@);
            all_lines.append(&mut entry_lines);
            proof {
                assert(es.take(i + 1).drop_last() =~= es.take(i as int));
                assert(es.take(i + 1).last() == entries@[i as int]@);
                assert(texts(all_lines@) =~= before + added);
                assert(before + added =~= head + entries_lines(es.take(i + 1)));
            }
            i += 1;
        }
        proof {
            assert(es.take(entries.len() as int) =~= es);
            reveal_strlit("\n");
            assert("\n"@ =~= line_feed());
        }
        let mut content = join_strings(&all_lines, "\n");
        content.append("\n");
        content
    }

    /// Reads the commit list that `file` holds: its modelines and its
    /// entries. Fails if there is no entry.
    pub fn read_from_file(file: &CommitsFile) -> (r: Result<
        (Vec<String>, Vec<CommitEntry>),
        ParseError,
    >)
        ensures
            match r {
                Ok((modelines, entries)) => {
                    &&& texts(modelines@) == parse_spec(file.content@).0
                    &&& entry_views(entries@) == parse_spec(file.content@).1
                    &&& entries.len() > 0
                },
                Err(e) => e == ParseError::EmptyInput && parse_spec(file.content@).1.len() == 0,
            },
    {
        Self::parse(file.content.as_str())
    }

    /// The file at `file_path` as it is to be written to hold the commit
    /// list with the given modelines and entries.
    pub fn write_to_file(file_path: &str, modelines: &Vec<String>, entries: &Vec<CommitEntry>) -> (r:
        CommitsFile)
        ensures
            r.path@ == file_path@,
            r.content@ == serialize_spec(texts(modelines@), entry_views(entries@)),
    {
        CommitsFile { path: file_path.to_string(), content: Self::serialize(modelines, entries) }
    }

    /// The commits to work on: those of the commit-list file if there is one,
    /// together with its path, else the commits named on the command line.
    pub fn get_commits(cli_commits: Vec<String>, commits_file: Option<CommitsFile>) -> (r: Result<
        (Vec<CommitInfo>, Option<String>),
        ParseError,
    >)
        ensures
            match commits_file {
                Some(file) => match r {
                    Ok((commits, path)) => {
                        &&& commit_views(commits@) == commits_of(parse_spec(file.content@).1)
                        &&& commits.len() > 0
                        &&& opt_text(path) == Some(file.path@)
                    },
                    Err(e) => e == ParseError::EmptyInput && parse_spec(file.content@).1.len()
                        == 0,
                },
                None => match r {
                    Ok((commits, path)) => {
                        &&& commit_views(commits@) == bare_commits(texts(cli_commits@))
                        &&& path is None
                    },
                    Err(_) => false,
                },
            },
    {
        match commits_file {
            Some(file) => {
                match Self::read_from_file(&file) {
                    Ok((_, entries)) => {
                        let mut commits: Vec<CommitInfo> = Vec::new();
                        let mut i: usize = 0;
                        let ghost es = entry_views(entries@);
                        while i < entries.len()
                            invariant
                                i <= entries.len(),
                                es == entry_views(entries@),
                                commits.len() == i,
                                commit_views(commits@) == commits_of(es).take(i as int),
                            decreases entries.len() - i,
                        {
                            let ghost before = commits@;
                            commits.push(entries[i].commit.clone());
                            proof {
                                assert forall|j: int| 0 <= j < i + 1 implies commit_views(
                                    commits@,
                                )[j] == commits_of(es)[j] by {
                                    if j < i {
                                        assert(commit_views(before)[j] == commits_of(es).take(
                                            i as int,
                                        )[j]);
                                    }
                                }
                                assert(commit_views(commits@) =~= commits_of(es).take(i + 1));
                            }
                            i += 1;
                        }
                        proof {
                            assert(commits_of(es).take(entries.len() as int) =~= commits_of(es));
                        }
                        Ok((commits, Some(file.path)))
                    },
                    Err(e) => Err(e),
                }
            },
            None => {
                let mut commits: Vec<CommitInfo> = Vec::new();
                let mut i: usize = 0;
                let ghost hs = texts(cli_commits@);
                while i < cli_commits.len()
                    invariant
                        i <= cli_commits.len(),
                        hs == texts(cli_commits@),
                        commits.len() == i,
                        commit_views(commits@) == bare_commits(hs).take(i as int),
                    decreases cli_commits.len() - i,
                {
                    let ghost before = commits@;
                    commits.push(CommitInfo::from_hash(cli_commits[i].clone()));
                    proof {
                        assert forall|j: int| 0 <= j < i + 1 implies commit_views(commits@)[j]
                            == bare_commits(hs)[j] by {
                            if j < i {
                                assert(commit_views(before)[j] == bare_commits(hs).take(
                                    i as int,
                                )[j]);
                            }
                        }
                        assert(commit_views(commits@) =~= bare_commits(hs).take(i + 1));
                    }
                    i += 1;
                }
                proof {
                    assert(bare_commits(hs).take(cli_commits.len() as int) =~= bare_commits(hs));
                }
                Ok((commits, None))
            },
        }
    }

    /// The hashes of the given commits, in order.
    pub fn extract_hashes(commits: &[CommitInfo]) -> (r: Vec<String>)
        ensures
            texts(r@) == hashes_of(commit_views(commits@)),
    {
        let mut hashes: Vec<String> = Vec::new();
        let mut i: usize = 0;
        let ghost want = hashes_of(commit_views(commits@));
        while i < commits.len()
            invariant
                i <= commits.len(),
                want == hashes_of(commit_views(commits@)),
                hashes.len() == i,
                texts(hashes@) == want.take(i as int),
            decreases commits.len() - i,
        {
            let ghost before = hashes@;
            hashes.push(commits[i].hash.clone());
            proof {
                assert forall|j: int| 0 <= j < i + 1 implies texts(hashes@)[j] == want[j] by {
                    if j < i {
                        assert(texts(before)[j] == want.take(i as int)[j]);
                    }
                }
                assert(texts(hashes@) =~= want.take(i + 1));
            }
            i += 1;
        }
        proof {
            assert(want.take(commits.len() as int) =~= want);
        }
        hashes
    }
}

} // verus!
