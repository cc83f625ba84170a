use git_bp::commits::{CommitEntry, CommitInfo, ParseError};
use git_bp::sort::{
    attach_infos, command, reorder_entries, sort_commits_topologically, Args, SortError,
    SortOutcome, SortSession, SortStage,
};
use git_bp::vcs::{ListOrder, Query, Reply};

fn strings(items: &[&str]) -> Vec<String> {
    items.iter().map(|s| s.to_string()).collect()
}

fn ok(output: &str) -> Reply {
    Reply { success: true, output: output.to_string(), diagnostics: String::new() }
}

fn failed(diagnostics: &str) -> Reply {
    Reply { success: false, output: String::new(), diagnostics: diagnostics.to_string() }
}

fn info(hash: &str, title: Option<&str>) -> CommitInfo {
    CommitInfo { hash: hash.to_string(), change_id: None, title: title.map(|s| s.to_string()) }
}

fn full(tag: &str) -> String {
    format!("{}{}", tag, "0".repeat(40 - tag.len()))
}

#[test]
fn sort_follows_ancestry_feed() {
    let sorted = sort_commits_topologically(strings(&["c4", "c2"]), "c1\nc2\nc3\nc4\n").unwrap();
    assert_eq!(sorted, strings(&["c2", "c4"]));
}

#[test]
fn sort_keeps_the_target_as_given() {
    let feed = "1111111aaaa\n2222222bbbb\n3333333cccc\n";
    let sorted =
        sort_commits_topologically(strings(&["3333333", "1111111aaaaXY", "2222222b"]), feed);
    // "1111111aaaaXY" extends the listed hash, which counts as naming it.
    assert_eq!(sorted.unwrap(), strings(&["1111111aaaaXY", "2222222b", "3333333"]));
}

#[test]
fn sort_output_is_permutation_of_input_set() {
    let targets = strings(&["d", "b", "a", "b", "c", "d"]);
    let mut sorted = sort_commits_topologically(targets, "a\nb\nc\nd\ne\n").unwrap();
    assert_eq!(sorted, strings(&["a", "b", "c", "d"]));
    sorted.sort();
    sorted.dedup();
    assert_eq!(sorted.len(), 4);
}

#[test]
fn sort_trims_feed_lines_and_skips_blank_ones() {
    let sorted =
        sort_commits_topologically(strings(&["bb", "aa"]), "  aa  \r\n\n\t\nbb\n").unwrap();
    assert_eq!(sorted, strings(&["aa", "bb"]));
}

#[test]
fn sort_consumes_each_target_once() {
    // Two listed commits begin with "ab"; the target is used for the first only.
    let sorted = sort_commits_topologically(strings(&["ab"]), "ab1\nab2\n").unwrap();
    assert_eq!(sorted, strings(&["ab"]));
}

#[test]
fn sort_picks_first_matching_target_in_input_order() {
    let sorted = sort_commits_topologically(strings(&["abc", "ab"]), "abcd\nabxx\n").unwrap();
    assert_eq!(sorted, strings(&["abc", "ab"]));
    let sorted = sort_commits_topologically(strings(&["ab", "abc"]), "abcd\nabcx\n").unwrap();
    assert_eq!(sorted, strings(&["ab", "abc"]));
}

#[test]
fn sort_reports_targets_not_found() {
    let r = sort_commits_topologically(strings(&["c2", "zz", "c1", "yy"]), "c1\nc2\n");
    match r {
        Err(SortError::CommitsNotFound(missing)) => assert_eq!(missing, strings(&["zz", "yy"])),
        other => panic!("unexpected: {:?}", other),
    }
}

#[test]
fn sort_of_nothing_is_nothing() {
    assert_eq!(sort_commits_topologically(vec![], "c1\nc2\n").unwrap(), Vec::<String>::new());
    assert_eq!(sort_commits_topologically(vec![], "").unwrap(), Vec::<String>::new());
}

#[test]
fn attach_gives_each_sorted_hash_its_record() {
    let infos = vec![info("bbb", Some("B")), info("aaa", Some("A"))];
    let sorted = attach_infos(&strings(&["aaa", "bbb"]), &infos);
    assert_eq!(sorted.len(), 2);
    assert_eq!(sorted[0].hash, "aaa");
    assert_eq!(sorted[0].title.as_deref(), Some("A"));
    assert_eq!(sorted[1].hash, "bbb");
    assert_eq!(sorted[1].title.as_deref(), Some("B"));
}

#[test]
fn attach_takes_first_record_that_the_hash_names() {
    let infos = vec![info("ab", Some("short")), info("abcd", Some("long"))];
    let sorted = attach_infos(&strings(&["abcd", "zz"]), &infos);
    assert_eq!(sorted.len(), 1);
    assert_eq!(sorted[0].hash, "abcd");
    assert_eq!(sorted[0].title.as_deref(), Some("short"));
}

#[test]
fn reorder_moves_comments_with_their_commit() {
    let entries = vec![
        CommitEntry::with_comments(info("ccc", None), strings(&["# third"])),
        CommitEntry::with_comments(info("zzz", None), strings(&["# unknown"])),
        CommitEntry::with_comments(info("aaa", None), strings(&["# first"])),
        CommitEntry::with_comments(info("yyy", None), strings(&["# unknown too"])),
        CommitEntry::with_comments(info("bbb", None), strings(&[])),
    ];
    let sorted = vec![info("aaa", Some("A")), info("bbb", Some("B")), info("ccc", Some("C"))];
    let r = reorder_entries(&entries, &sorted);
    let hashes: Vec<&str> = r.iter().map(|e| e.commit.hash.as_str()).collect();
    assert_eq!(hashes, vec!["aaa", "bbb", "ccc", "zzz", "yyy"]);
    assert_eq!(r[0].comments, strings(&["# first"]));
    assert_eq!(r[0].commit.title.as_deref(), Some("A"));
    assert_eq!(r[2].comments, strings(&["# third"]));
    assert_eq!(r[3].comments, strings(&["# unknown"]));
    assert_eq!(r[3].commit.title, None);
}

fn run(mut session: SortSession, answer: &dyn Fn(&Query) -> Reply) -> (SortSession, Vec<Vec<String>>) {
    let mut asked = Vec::new();
    while let Some(q) = session.pending() {
        asked.push(q.to_args());
        let reply = answer(&q);
        session = session.resume(&reply);
    }
    (session, asked)
}

#[test]
fn sort_command_prints_sorted_commits() {
    let args = Args {
        commits: strings(&["c3", "c1"]),
        commits_file: None,
        in_place: false,
        reference: "main".to_string(),
    };
    let session = command(args, "").unwrap();
    match session.pending() {
        Some(Query::ListCommits { range, order }) => {
            assert_eq!(range, "main");
            assert_eq!(order, ListOrder::Topological);
        }
        other => panic!("unexpected: {:?}", other),
    }
    let (session, asked) = run(session, &|_| ok("c1\nc2\nc3\n"));
    assert_eq!(asked, vec![strings(&["rev-list", "--topo-order", "--reverse", "main"])]);
    match session.finish() {
        Some(Ok(SortOutcome::Print(text))) => assert_eq!(text, "c1\nc3\n"),
        other => panic!("unexpected: {:?}", other),
    }
}

#[test]
fn sort_command_prints_file_records_when_not_in_place() {
    let args = Args {
        commits: vec![],
        commits_file: Some("list".to_string()),
        in_place: false,
        reference: "HEAD".to_string(),
    };
    let session = command(args, "# c\nc3 Third\nc1 First\n").unwrap();
    let (session, _) = run(session, &|_| ok("c1\nc2\nc3\n"));
    match session.finish() {
        Some(Ok(SortOutcome::Print(text))) => assert_eq!(text, "c1 First\nc3 Third\n"),
        other => panic!("unexpected: {:?}", other),
    }
}

#[test]
fn sort_command_rewrites_file_in_place_with_enriched_entries() {
    let a = full("a");
    let b = full("b");
    let cid = "I0123456789012345678901234567890123456789";
    let content = "# vim: ft=x\n# about b\nb00 Title of b\n\n# about a\na00\n".to_string();
    let args = Args {
        commits: vec![],
        commits_file: Some("list".to_string()),
        in_place: true,
        reference: "HEAD".to_string(),
    };
    let session = command(args, &content).unwrap();
    let answer = |q: &Query| -> Reply {
        match q {
            Query::ListCommits { .. } => ok(&format!("{}\n{}\n", a, b)),
            Query::CommitBody { hash } if hash == "a00" => {
                ok(&format!("Subject a\n\nChange-Id: {}\n", cid))
            }
            Query::CommitBody { .. } => ok("Subject b\n\nno trailer\n"),
            Query::ExpandHash { abbrev } if abbrev == "a00" => ok(&format!("{}\n", a)),
            Query::ExpandHash { abbrev } if abbrev == "b00" => ok(&format!("{}\n", b)),
            Query::CommitSubject { hash } if *hash == a => ok("Subject a\n"),
            other => panic!("unexpected query: {:?}", other),
        }
    };
    let (session, asked) = run(session, &answer);
    assert_eq!(asked.len(), 6);
    match session.finish() {
        Some(Ok(SortOutcome::Rewrite { file, updated })) => {
            assert_eq!(file.path, "list");
            assert_eq!(updated, 2);
            assert_eq!(
                file.content,
                format!("# vim: ft=x\n\n# about a\n{} {} Subject a\n# about b\n{} Title of b\n", a, cid, b)
            );
        }
        other => panic!("unexpected: {:?}", other),
    }
}

#[test]
fn sort_command_fails_when_listing_fails() {
    let args = Args {
        commits: strings(&["c1"]),
        commits_file: None,
        in_place: false,
        reference: "nowhere".to_string(),
    };
    let (session, _) = run(command(args, "").unwrap(), &|_| failed("fatal: bad revision"));
    assert!(matches!(session.stage, SortStage::Failed(_)));
    match session.finish() {
        Some(Err(SortError::ListingFailed(d))) => assert_eq!(d, "fatal: bad revision"),
        other => panic!("unexpected: {:?}", other),
    }
}

#[test]
fn sort_command_fails_when_a_commit_is_not_in_history() {
    let args = Args {
        commits: strings(&["c1", "c9"]),
        commits_file: None,
        in_place: false,
        reference: "HEAD".to_string(),
    };
    let (session, _) = run(command(args, "").unwrap(), &|_| ok("c1\nc2\n"));
    match session.finish() {
        Some(Err(SortError::CommitsNotFound(missing))) => assert_eq!(missing, strings(&["c9"])),
        other => panic!("unexpected: {:?}", other),
    }
}

#[test]
fn sort_command_rejects_file_without_commits() {
    let args = Args {
        commits: vec![],
        commits_file: Some("list".to_string()),
        in_place: false,
        reference: "HEAD".to_string(),
    };
    assert_eq!(command(args, "# nothing here\n").unwrap_err(), ParseError::EmptyInput);
}

#[test]
fn sort_session_is_unfinished_while_it_waits() {
    let args = Args {
        commits: strings(&["c1"]),
        commits_file: None,
        in_place: false,
        reference: "HEAD".to_string(),
    };
    let session = command(args, "").unwrap();
    assert!(session.finish().is_none());
}

#[test]
fn sort_error_messages() {
    let e = SortError::CommitsNotFound(strings(&["c9", "d0"]));
    assert_eq!(e.message(), "Some commits not found in HEAD history: [\"c9\", \"d0\"]");
    let e = SortError::CommitsNotFound(vec![]);
    assert_eq!(e.message(), "Some commits not found in HEAD history: []");
    let e = SortError::ListingFailed("fatal: bad revision\n".to_string());
    assert_eq!(e.message(), "git rev-list: fatal: bad revision\n");
}
