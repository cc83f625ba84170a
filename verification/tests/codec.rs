use git_bp::commits::{CommitEntry, CommitInfo, CommitsFile, CommitsParser, ParseError};

fn info(hash: &str, change_id: Option<&str>, title: Option<&str>) -> CommitInfo {
    CommitInfo {
        hash: hash.to_string(),
        change_id: change_id.map(|s| s.to_string()),
        title: title.map(|s| s.to_string()),
    }
}

const CHANGE_ID: &str = "I0123456789012345678901234567890123456789";

#[test]
fn parse_line_reads_hash_change_id_and_title() {
    let line = "abc1234 I0123456789012345678901234567890123456789 Fix the thing";
    let c = CommitInfo::parse_line(line).unwrap();
    assert_eq!(c.hash, "abc1234");
    assert_eq!(c.change_id.as_deref(), Some(CHANGE_ID));
    assert_eq!(c.change_id.as_ref().unwrap().chars().count(), 41);
    assert_eq!(c.title.as_deref(), Some("Fix the thing"));
}

#[test]
fn parse_line_hash_only() {
    let c = CommitInfo::parse_line("deadbeef").unwrap();
    assert_eq!(c.hash, "deadbeef");
    assert_eq!(c.change_id, None);
    assert_eq!(c.title, None);
}

#[test]
fn parse_line_title_without_change_id() {
    let c = CommitInfo::parse_line("  deadbeef   Some \t title  here ").unwrap();
    assert_eq!(c.hash, "deadbeef");
    assert_eq!(c.change_id, None);
    assert_eq!(c.title.as_deref(), Some("Some title here"));
}

#[test]
fn parse_line_change_id_anywhere_after_hash() {
    let line = format!("abc first {} second", CHANGE_ID);
    let c = CommitInfo::parse_line(&line).unwrap();
    assert_eq!(c.hash, "abc");
    assert_eq!(c.change_id.as_deref(), Some(CHANGE_ID));
    assert_eq!(c.title.as_deref(), Some("first second"));
}

#[test]
fn parse_line_last_change_id_wins() {
    let other = "Iaaaaaaaaaaaaaaaaaaaaaaaaaaaaaaaaaaaaaaaa";
    let line = format!("abc {} {}", CHANGE_ID, other);
    let c = CommitInfo::parse_line(&line).unwrap();
    assert_eq!(c.change_id.as_deref(), Some(other));
    assert_eq!(c.title, None);
}

#[test]
fn parse_line_token_of_wrong_length_is_title() {
    let c = CommitInfo::parse_line("abc I0123 title").unwrap();
    assert_eq!(c.change_id, None);
    assert_eq!(c.title.as_deref(), Some("I0123 title"));
}

#[test]
fn parse_line_first_token_is_hash_even_if_it_looks_like_change_id() {
    let c = CommitInfo::parse_line(CHANGE_ID).unwrap();
    assert_eq!(c.hash, CHANGE_ID);
    assert_eq!(c.change_id, None);
}

#[test]
fn parse_line_blank_is_empty_line() {
    assert_eq!(CommitInfo::parse_line("").unwrap_err(), ParseError::EmptyLine);
    assert_eq!(CommitInfo::parse_line("  \t \u{a0}").unwrap_err(), ParseError::EmptyLine);
    assert_eq!(ParseError::EmptyLine.message(), "Empty line");
}

#[test]
fn parse_line_splits_at_unicode_white_space() {
    let c = CommitInfo::parse_line("abc\u{2003}hello\u{3000}world").unwrap();
    assert_eq!(c.hash, "abc");
    assert_eq!(c.title.as_deref(), Some("hello world"));
}

#[test]
fn to_line_joins_present_fields() {
    assert_eq!(info("abc", None, None).to_line(), "abc");
    assert_eq!(info("abc", Some(CHANGE_ID), None).to_line(), format!("abc {}", CHANGE_ID));
    assert_eq!(info("abc", None, Some("A title")).to_line(), "abc A title");
    assert_eq!(
        info("abc", Some(CHANGE_ID), Some("A title")).to_line(),
        format!("abc {} A title", CHANGE_ID)
    );
}

#[test]
fn from_hash_has_no_other_field() {
    let c = CommitInfo::from_hash("abc".to_string());
    assert_eq!(c.hash, "abc");
    assert_eq!(c.change_id, None);
    assert_eq!(c.title, None);
}

#[test]
fn entry_lines_are_comments_then_commit() {
    let e = CommitEntry::with_comments(
        info("abc", None, Some("T")),
        vec!["# one".to_string(), "".to_string()],
    );
    assert_eq!(e.to_lines(), vec!["# one".to_string(), "".to_string(), "abc T".to_string()]);
}

#[test]
fn parse_keeps_modelines_apart() {
    let content = "# vim: ft=gitbackportcommits\n  # vi: set x:\n# note\nabc Title\n";
    let (modelines, entries) = CommitsParser::parse(content).unwrap();
    assert_eq!(modelines, vec!["# vim: ft=gitbackportcommits".to_string(), "  # vi: set x:".to_string()]);
    assert_eq!(entries.len(), 1);
    assert_eq!(entries[0].comments, vec!["# note".to_string()]);
    assert_eq!(entries[0].commit.hash, "abc");
    assert_eq!(entries[0].commit.title.as_deref(), Some("Title"));
}

#[test]
fn parse_modeline_after_other_line_is_comment() {
    let content = "# note\n# vim: ft=x\nabc\n";
    let (modelines, entries) = CommitsParser::parse(content).unwrap();
    assert!(modelines.is_empty());
    assert_eq!(entries[0].comments, vec!["# note".to_string(), "# vim: ft=x".to_string()]);
}

#[test]
fn parse_attaches_comments_to_following_commit() {
    let content = "# first\n\nabc One\n# second\n  # indented\ndef Two\n# trailing\n";
    let (_, entries) = CommitsParser::parse(content).unwrap();
    assert_eq!(entries.len(), 2);
    assert_eq!(entries[0].comments, vec!["# first".to_string(), "".to_string()]);
    assert_eq!(entries[0].commit.hash, "abc");
    assert_eq!(entries[1].comments, vec!["# second".to_string(), "  # indented".to_string()]);
    assert_eq!(entries[1].commit.hash, "def");
}

#[test]
fn parse_handles_crlf_and_missing_final_newline() {
    let content = "abc One\r\ndef Two";
    let (_, entries) = CommitsParser::parse(content).unwrap();
    assert_eq!(entries.len(), 2);
    assert_eq!(entries[0].commit.title.as_deref(), Some("One"));
    assert_eq!(entries[1].commit.hash, "def");
    assert_eq!(entries[1].commit.title.as_deref(), Some("Two"));
}

#[test]
fn parse_without_commits_is_empty_input() {
    assert_eq!(CommitsParser::parse("").unwrap_err(), ParseError::EmptyInput);
    assert_eq!(
        CommitsParser::parse("# vim: ft=x\n# only comments\n\n").unwrap_err(),
        ParseError::EmptyInput
    );
    assert_eq!(ParseError::EmptyInput.message(), "No commits found in file");
}

#[test]
fn serialize_adds_default_modeline() {
    let entries = vec![CommitEntry::with_comments(info("abc", None, Some("T")), vec![])];
    let text = CommitsParser::serialize(&vec![], &entries);
    assert_eq!(text, "# vim: ft=gitbackportcommits\nabc T\n");
}

#[test]
fn serialize_keeps_modelines_and_comments() {
    let entries = vec![
        CommitEntry::with_comments(info("abc", None, None), vec!["# c1".to_string()]),
        CommitEntry::with_comments(
            info("def", Some(CHANGE_ID), Some("Two words")),
            vec!["".to_string(), "# c2".to_string()],
        ),
    ];
    let text = CommitsParser::serialize(&vec!["# vim: ft=other".to_string()], &entries);
    assert_eq!(
        text,
        format!("# vim: ft=other\n# c1\nabc\n\n# c2\ndef {} Two words\n", CHANGE_ID)
    );
}

#[test]
fn parse_then_serialize_round_trips() {
    let content = format!(
        "# vim: ft=gitbackportcommits\n# group one\nabc1234 {} Fix the thing\n\n# group two\ndef5678 Another one\n",
        CHANGE_ID
    );
    let (modelines, entries) = CommitsParser::parse(&content).unwrap();
    let written = CommitsParser::serialize(&modelines, &entries);
    assert_eq!(written, content);
    let (modelines2, entries2) = CommitsParser::parse(&written).unwrap();
    assert_eq!(modelines2, modelines);
    assert_eq!(entries2.len(), entries.len());
    for (a, b) in entries.iter().zip(entries2.iter()) {
        assert_eq!(a.comments, b.comments);
        assert_eq!(a.commit.hash, b.commit.hash);
        assert_eq!(a.commit.change_id, b.commit.change_id);
        assert_eq!(a.commit.title, b.commit.title);
    }
}

#[test]
fn round_trip_without_modeline_gains_default_one() {
    let content = "abc   spaced    title\n";
    let (modelines, entries) = CommitsParser::parse(content).unwrap();
    assert!(modelines.is_empty());
    let written = CommitsParser::serialize(&modelines, &entries);
    assert_eq!(written, "# vim: ft=gitbackportcommits\nabc spaced title\n");
    let (modelines2, entries2) = CommitsParser::parse(&written).unwrap();
    assert_eq!(modelines2, vec!["# vim: ft=gitbackportcommits".to_string()]);
    assert_eq!(entries2.len(), 1);
    assert_eq!(entries2[0].commit.hash, "abc");
    assert_eq!(entries2[0].commit.title.as_deref(), Some("spaced title"));
}

#[test]
fn get_commits_from_command_line() {
    let (commits, path) =
        CommitsParser::get_commits(vec!["a".to_string(), "b".to_string()], None).unwrap();
    assert_eq!(path, None);
    assert_eq!(CommitsParser::extract_hashes(&commits), vec!["a".to_string(), "b".to_string()]);
    assert!(commits.iter().all(|c| c.change_id.is_none() && c.title.is_none()));
}

#[test]
fn get_commits_from_file() {
    let file = CommitsFile { path: "list.txt".to_string(), content: "# c\nabc T\ndef\n".to_string() };
    let (commits, path) = CommitsParser::get_commits(vec!["ignored".to_string()], Some(file)).unwrap();
    assert_eq!(path.as_deref(), Some("list.txt"));
    assert_eq!(CommitsParser::extract_hashes(&commits), vec!["abc".to_string(), "def".to_string()]);
    assert_eq!(commits[0].title.as_deref(), Some("T"));
}

#[test]
fn get_commits_from_empty_file_fails() {
    let file = CommitsFile { path: "list.txt".to_string(), content: "# nothing\n".to_string() };
    assert_eq!(CommitsParser::get_commits(vec![], Some(file)).unwrap_err(), ParseError::EmptyInput);
}

#[test]
fn read_from_file_reads_what_the_file_holds() {
    let file = CommitsFile {
        path: "list.txt".to_string(),
        content: "# vim: ft=x\n# c\nabc T\n".to_string(),
    };
    let (modelines, entries) = CommitsParser::read_from_file(&file).unwrap();
    assert_eq!(modelines, vec!["# vim: ft=x".to_string()]);
    assert_eq!(entries.len(), 1);
    assert_eq!(entries[0].comments, vec!["# c".to_string()]);
    assert_eq!(entries[0].commit.hash, "abc");
    let empty = CommitsFile { path: "list.txt".to_string(), content: "\n".to_string() };
    assert_eq!(CommitsParser::read_from_file(&empty).unwrap_err(), ParseError::EmptyInput);
}

#[test]
fn write_to_file_gives_the_file_to_write() {
    let entries = vec![CommitEntry::with_comments(info("abc", None, Some("T")), vec!["# c".to_string()])];
    let file = CommitsParser::write_to_file("list.txt", &vec![], &entries);
    assert_eq!(file.path, "list.txt");
    assert_eq!(file.content, "# vim: ft=gitbackportcommits\n# c\nabc T\n");
}

#[test]
fn round_trip_loses_carriage_return_at_end_of_kept_comment() {
    let content = "# note\r\r\nabc\n";
    let (modelines, entries) = CommitsParser::parse(content).unwrap();
    assert_eq!(entries[0].comments, vec!["# note\r".to_string()]);
    let written = CommitsParser::serialize(&modelines, &entries);
    let (_, again) = CommitsParser::parse(&written).unwrap();
    assert_eq!(again[0].comments, vec!["# note".to_string()]);
    assert_eq!(again[0].commit.hash, "abc");
}
