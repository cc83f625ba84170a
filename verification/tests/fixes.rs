use git_bp::commits::CommitInfo;
use git_bp::fix::applied::{is_commit_already_applied, AppliedStage};
use git_bp::fix::audit::find_references_for_commit;
use git_bp::fix::originals::{find_all_original_commits, OriginalStage};
use git_bp::fix::queries::{find_commit_by_change_id, shorten};
use git_bp::fix::search::{find_fixes_for_commit, FixStage};
use git_bp::fix::unique::{dedup_fixes, output_commits_file};
use git_bp::fix::{command, get_commits_in_range, Args, FixError, FixSession, SessionStage};
use git_bp::vcs::{Query, Reply};

fn strings(items: &[&str]) -> Vec<String> {
    items.iter().map(|s| s.to_string()).collect()
}

fn ok(output: &str) -> Reply {
    Reply { success: true, output: output.to_string(), diagnostics: String::new() }
}

fn failed() -> Reply {
    Reply { success: false, output: String::new(), diagnostics: "fatal: nothing".to_string() }
}

fn full(tag: &str) -> String {
    format!("{}{}", tag, "0".repeat(40 - tag.len()))
}

fn cid(tag: &str) -> String {
    format!("I{}{}", tag, "9".repeat(40 - tag.len()))
}

fn info(hash: &str, change_id: Option<&str>, title: Option<&str>) -> CommitInfo {
    CommitInfo {
        hash: hash.to_string(),
        change_id: change_id.map(|s| s.to_string()),
        title: title.map(|s| s.to_string()),
    }
}

#[test]
fn short_hash_is_seven_characters_or_fewer() {
    assert_eq!(shorten("deadbee0000000000000000000000000000000000"), "deadbee");
    assert_eq!(shorten("deadbee"), "deadbee");
    assert_eq!(shorten("dead"), "dead");
    assert_eq!(shorten(""), "");
    assert_eq!(shorten("deadbeef"), "deadbee");
}

#[test]
fn range_listing_query_is_reversed() {
    assert_eq!(
        get_commits_in_range("v1.0", "HEAD").to_args(),
        strings(&["rev-list", "--reverse", "v1.0..HEAD"])
    );
}

#[test]
fn change_id_search_query() {
    assert_eq!(
        find_commit_by_change_id("Iabc", "upstream").to_args(),
        strings(&["log", "--format=%H", "--grep", "Change-Id: Iabc", "upstream"])
    );
}

#[test]
fn applied_when_ancestor_of_head() {
    let check = is_commit_already_applied(info("abcdef0123", Some("Ix"), None), "base");
    assert_eq!(
        check.pending().unwrap().to_args(),
        strings(&["merge-base", "--is-ancestor", "abcdef0123", "HEAD"])
    );
    let check = check.resume(&ok(""));
    assert!(matches!(check.stage, AppliedStage::Decided(true)));
    assert!(check.pending().is_none());
}

#[test]
fn applied_when_change_id_is_on_branch() {
    let check = is_commit_already_applied(info("abcdef0123", Some("Ix"), None), "base");
    let check = check.resume(&failed());
    assert_eq!(
        check.pending().unwrap().to_args(),
        strings(&["log", "--format=%H", "--grep", "Change-Id: Ix", "base..HEAD"])
    );
    let check = check.resume(&ok("1234\n"));
    assert!(matches!(check.stage, AppliedStage::Decided(true)));
}

#[test]
fn applied_when_cherry_picked_by_full_hash() {
    let check = is_commit_already_applied(info("abcdef0123", None, None), "base");
    let check = check.resume(&failed());
    assert_eq!(
        check.pending().unwrap().to_args(),
        strings(&["log", "--format=%H", "--grep", "cherry picked from commit abcdef0123", "base..HEAD"])
    );
    let check = check.resume(&ok("1234\n"));
    assert!(matches!(check.stage, AppliedStage::Decided(true)));
}

#[test]
fn applied_when_cherry_picked_by_short_hash() {
    let check = is_commit_already_applied(info("abcdef0123", Some("Ix"), None), "base");
    let check = check.resume(&failed()).resume(&ok("  \n")).resume(&failed());
    assert_eq!(
        check.pending().unwrap().to_args(),
        strings(&["log", "--format=%H", "--grep", "cherry picked from commit abcdef0", "base..HEAD"])
    );
    let check = check.resume(&ok("1234\n"));
    assert!(matches!(check.stage, AppliedStage::Decided(true)));
}

#[test]
fn not_applied_when_nothing_points_to_it() {
    let check = is_commit_already_applied(info("abcdef0123", Some("Ix"), None), "base");
    let check = check.resume(&failed()).resume(&ok("")).resume(&ok("\n")).resume(&failed());
    assert!(matches!(check.stage, AppliedStage::Decided(false)));
    assert!(check.pending().is_none());
    assert_eq!(check.commit.hash, "abcdef0123");
}

#[test]
fn originals_by_change_id_and_earlier_change_ids() {
    let commit = info("abc", Some("Inew"), None);
    let search = find_all_original_commits(&commit, "upstream");
    assert_eq!(
        search.pending().unwrap().to_args(),
        strings(&["log", "--format=%H", "--grep", "Change-Id: Inew", "upstream"])
    );
    let search = search.resume(&ok("o1\no1-older\n"));
    assert_eq!(search.pending().unwrap().to_args(), strings(&["log", "--format=%B", "-n", "1", "abc"]));
    let search = search.resume(&ok("S\n\nWas-Change-Id: Iold1\nWas-Change-Id: Iold2\nWas-Change-Id: Iold3\n"));
    assert!(matches!(&search.stage, OriginalStage::ByWasId(id) if id == "Iold1"));
    assert_eq!(
        search.pending().unwrap().to_args(),
        strings(&["log", "--format=%H", "--grep", "Change-Id: Iold1", "upstream"])
    );
    let search = search.resume(&ok("o2\n"));
    let search = search.resume(&ok("o1\n"));
    let search = search.resume(&failed());
    assert!(matches!(search.stage, OriginalStage::Done));
    assert!(search.pending().is_none());
    assert_eq!(search.found, strings(&["o1", "o2"]));
}

#[test]
fn originals_without_change_id_start_with_message() {
    let search = find_all_original_commits(&info("abc", None, None), "upstream");
    assert!(matches!(search.stage, OriginalStage::Trailers));
    let search = search.resume(&ok("S\n\nno trailers\n"));
    assert!(matches!(search.stage, OriginalStage::Done));
    assert!(search.found.is_empty());
}

#[test]
fn fix_search_drops_applied_fixes() {
    let search = find_fixes_for_commit("deadbee000", "upstream", "base");
    assert_eq!(
        search.pending().unwrap().to_args(),
        strings(&["log", "--format=%H", "--grep", "Fixes: deadbee", "deadbee000..upstream"])
    );
    let f1 = full("f1");
    let f2 = full("f2");
    let mut search = search.resume(&ok(&format!("{}\n{}\n", f1, f2)));
    // f1: message, subject, then the four checks, all negative.
    for reply in [ok("S1\n\nno id\n"), ok("S1\n"), failed(), ok(""), ok("")] {
        assert!(search.pending().is_some());
        search = search.resume(&reply);
    }
    assert!(matches!(search.stage, FixStage::Enriching(_)));
    // f2: message, subject, then it is an ancestor of the head.
    for reply in [ok("S2\n"), ok("S2\n"), ok("")] {
        search = search.resume(&reply);
    }
    assert!(matches!(search.stage, FixStage::Done));
    assert!(search.pending().is_none());
    assert_eq!(search.fixes.len(), 1);
    assert_eq!(search.fixes[0].hash, f1);
    assert_eq!(search.fixes[0].title.as_deref(), Some("S1"));
}

#[test]
fn fix_search_without_hits_is_done_at_once() {
    let search = find_fixes_for_commit("deadbee000", "upstream", "base").resume(&failed());
    assert!(matches!(search.stage, FixStage::Done));
    assert!(search.fixes.is_empty());
}

#[test]
fn audit_warns_about_unmarked_reference() {
    let original = "deadbee0000000000000000000000000000000000";
    let audit = find_references_for_commit(original, "upstream");
    assert_eq!(
        audit.pending().unwrap().to_args(),
        vec![
            "log".to_string(),
            "--format=%H".to_string(),
            "--grep".to_string(),
            "deadbee".to_string(),
            format!("{}..upstream", original)
        ]
    );
    let audit = audit.resume(&ok("fix1\nref2\nref3\n"));
    assert_eq!(audit.pending().unwrap().to_args(), strings(&["log", "--format=%B", "-n", "1", "fix1"]));
    let audit = audit.resume(&ok("Fix\n\nFixes: deadbee (\"subject\")\n"));
    assert_eq!(audit.pending().unwrap().to_args(), strings(&["log", "--format=%B", "-n", "1", "ref2"]));
    let audit = audit.resume(&ok("Refactor\n\nThis reverts part of deadbee.\n"));
    assert_eq!(audit.pending().unwrap().to_args(), strings(&["log", "--format=%s", "-n", "1", "ref2"]));
    let audit = audit.resume(&ok("Refactor\n"));
    let audit = audit.resume(&failed());
    let audit = audit.resume(&failed());
    assert!(audit.pending().is_none());
    assert_eq!(
        audit.warnings,
        vec![
            format!("Commit ref2 references {} but is not marked as a fix: Refactor", original),
            format!("Commit ref3 references {} but is not marked as a fix", original),
        ]
    );
}

#[test]
fn dedup_sorts_by_hash_and_keeps_first_of_each() {
    let fixes = vec![
        info("cc", None, Some("c first")),
        info("aa", None, Some("a")),
        info("cc", None, Some("c second")),
        info("b", None, None),
        info("aa", Some("Ix"), None),
    ];
    let unique = dedup_fixes(&fixes);
    let hashes: Vec<&str> = unique.iter().map(|c| c.hash.as_str()).collect();
    assert_eq!(hashes, vec!["aa", "b", "cc"]);
    assert_eq!(unique[0].title.as_deref(), Some("a"));
    assert_eq!(unique[0].change_id, None);
    assert_eq!(unique[2].title.as_deref(), Some("c first"));
}

#[test]
fn dedup_orders_like_strings() {
    let fixes = vec![info("b", None, None), info("ab", None, None), info("a", None, None), info("é", None, None), info("B", None, None)];
    let mut expected: Vec<String> = fixes.iter().map(|c| c.hash.clone()).collect();
    expected.sort();
    let unique: Vec<String> = dedup_fixes(&fixes).into_iter().map(|c| c.hash).collect();
    assert_eq!(unique, expected);
}

#[test]
fn output_is_a_commit_list() {
    let fixes = vec![info("aa", Some("Ix"), Some("A title")), info("bb", None, None)];
    assert_eq!(output_commits_file(&fixes), "# vim: ft=gitbackportcommits\naa Ix A title\nbb\n");
    assert_eq!(output_commits_file(&vec![]), "# vim: ft=gitbackportcommits\n");
}

fn run(mut session: FixSession, answer: &dyn Fn(&Query) -> Reply) -> (FixSession, usize) {
    let mut asked = 0;
    while let Some(q) = session.pending() {
        asked += 1;
        assert!(asked < 10_000, "the session does not end");
        let reply = answer(&q);
        session = session.resume(&reply);
    }
    (session, asked)
}

#[test]
fn fix_command_fails_when_range_cannot_be_listed() {
    let session = command(Args { base: "nope".to_string(), ref_branch: "upstream".to_string() });
    assert_eq!(session.pending().unwrap().to_args(), strings(&["rev-list", "--reverse", "nope..HEAD"]));
    assert!(session.finish().is_none());
    let (session, asked) = run(session, &|_| Reply {
        success: false,
        output: String::new(),
        diagnostics: "fatal: bad revision 'nope..HEAD'\n".to_string(),
    });
    assert_eq!(asked, 1);
    assert!(matches!(session.stage, SessionStage::Failed(_)));
    match session.finish() {
        Some(Err(e)) => {
            assert!(matches!(&e, FixError::ListingFailed(d) if d == "fatal: bad revision 'nope..HEAD'\n"));
            assert_eq!(e.message(), "git rev-list failed: fatal: bad revision 'nope..HEAD'\n");
        }
        other => panic!("unexpected: {:?}", other),
    }
}

#[test]
fn fix_command_prints_nothing_for_empty_range() {
    let session = command(Args { base: "base".to_string(), ref_branch: "upstream".to_string() });
    let (session, asked) = run(session, &|_| ok("\n"));
    assert_eq!(asked, 1);
    assert_eq!(session.finish().unwrap().unwrap(), "");
}

#[test]
fn fix_command_finds_each_fix_once() {
    let x1 = full("11");
    let x2 = full("22");
    let o1 = full("a1");
    let o2 = full("c2");
    let f1 = full("f1");
    let f2 = full("f2");
    let f3 = full("03");
    let r1 = full("e1");
    let (ca, cb, cc, cf) = (cid("aa"), cid("bb"), cc_id(), cid("ff"));
    let answer = |q: &Query| -> Reply {
        match q {
            Query::ListCommits { range, .. } => {
                assert_eq!(range, "base..HEAD");
                ok(&format!("{}\n{}\n", x1, x2))
            }
            Query::CommitBody { hash } => {
                if *hash == x1 {
                    ok(&format!("Backport one\n\nChange-Id: {}\n", ca))
                } else if *hash == x2 {
                    ok(&format!(
                        "Backport two\n\nChange-Id: {}\nWas-Change-Id: {}\nWas-Change-Id: {}\n",
                        cb, cc, ca
                    ))
                } else if *hash == f1 {
                    ok(&format!("Fix one\n\nFixes: a100000 (\"one\")\nChange-Id: {}\n", cf))
                } else if *hash == f2 {
                    ok(&format!("Fix two\n\nFixes: {}\n", o1))
                } else if *hash == r1 {
                    ok("Mention\n\nFollow-up to a100000, see there.\n")
                } else {
                    failed()
                }
            }
            Query::CommitSubject { hash } => {
                if *hash == x1 {
                    ok("Backport one\n")
                } else if *hash == x2 {
                    ok("Backport two\n")
                } else if *hash == f1 {
                    ok("Fix one\n")
                } else if *hash == f2 {
                    ok("Fix two\n")
                } else if *hash == r1 {
                    ok("Mention\n")
                } else {
                    failed()
                }
            }
            Query::ExpandHash { abbrev } => panic!("no hash needs expanding: {}", abbrev),
            Query::IsAncestor { of_ref, .. } => {
                assert_eq!(of_ref, "HEAD");
                failed()
            }
            Query::SearchByMessage { pattern, range } => {
                if range == "upstream" {
                    if *pattern == format!("Change-Id: {}", ca) {
                        ok(&format!("{}\n", o1))
                    } else if *pattern == format!("Change-Id: {}", cc) {
                        ok(&format!("{}\n", o2))
                    } else {
                        ok("")
                    }
                } else if *range == format!("{}..upstream", o1) {
                    if pattern == "Fixes: a100000" {
                        ok(&format!("{}\n{}\n", f1, f2))
                    } else if pattern == "a100000" {
                        ok(&format!("{}\n{}\n{}\n", f1, f2, r1))
                    } else {
                        panic!("unexpected pattern {}", pattern)
                    }
                } else if *range == format!("{}..upstream", o2) {
                    if pattern == "Fixes: c200000" {
                        ok(&format!("{}\n", f3))
                    } else {
                        failed()
                    }
                } else if range == "base..HEAD" {
                    if *pattern == format!("cherry picked from commit {}", f2) {
                        ok("picked\n")
                    } else {
                        ok("")
                    }
                } else {
                    panic!("unexpected range {}", range)
                }
            }
        }
    };
    let session = command(Args { base: "base".to_string(), ref_branch: "upstream".to_string() });
    let (session, _) = run(session, &answer);
    assert!(matches!(session.stage, SessionStage::Done));
    // f1 is found by way of x1 and again by way of x2.
    let found: Vec<&str> = session.fixes.iter().map(|c| c.hash.as_str()).collect();
    assert_eq!(found, vec![f1.as_str(), f3.as_str(), f1.as_str()]);
    let warning = format!("Commit {} references {} but is not marked as a fix: Mention", r1, o1);
    assert_eq!(session.warnings, vec![warning.clone(), warning]);
    let output = session.finish().unwrap().unwrap();
    assert_eq!(
        output,
        format!("# vim: ft=gitbackportcommits\n{}\n{} {} Fix one\n", f3, f1, cf)
    );
    assert_eq!(output.matches(f1.as_str()).count(), 1);
}

fn cc_id() -> String {
    cid("cc")
}
