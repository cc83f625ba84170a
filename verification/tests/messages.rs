use git_bp::commits::CommitInfo;
use git_bp::enrich::{EnrichStage, Enrichment};
use git_bp::message::{
    find_change_id, get_commit_title, get_was_change_ids, is_explicit_fix, read_id_trailers,
};
use git_bp::vcs::{ListOrder, Query, Reply};

fn strings(items: &[&str]) -> Vec<String> {
    items.iter().map(|s| s.to_string()).collect()
}

fn ok(output: &str) -> Reply {
    Reply { success: true, output: output.to_string(), diagnostics: String::new() }
}

fn failed() -> Reply {
    Reply { success: false, output: "ignored".to_string(), diagnostics: "boom".to_string() }
}

fn full(tag: &str) -> String {
    format!("{}{}", tag, "0".repeat(40 - tag.len()))
}

const CID: &str = "I0123456789012345678901234567890123456789";

#[test]
fn query_arguments() {
    let q = Query::ListCommits { range: "a..b".to_string(), order: ListOrder::Reverse };
    assert_eq!(q.to_args(), strings(&["rev-list", "--reverse", "a..b"]));
    let q = Query::ListCommits { range: "main".to_string(), order: ListOrder::Topological };
    assert_eq!(q.to_args(), strings(&["rev-list", "--topo-order", "--reverse", "main"]));
    let q = Query::ListCommits { range: "main".to_string(), order: ListOrder::Default };
    assert_eq!(q.to_args(), strings(&["rev-list", "main"]));
    let q = Query::CommitBody { hash: "abc".to_string() };
    assert_eq!(q.to_args(), strings(&["log", "--format=%B", "-n", "1", "abc"]));
    let q = Query::CommitSubject { hash: "abc".to_string() };
    assert_eq!(q.to_args(), strings(&["log", "--format=%s", "-n", "1", "abc"]));
    let q = Query::IsAncestor { candidate: "abc".to_string(), of_ref: "HEAD".to_string() };
    assert_eq!(q.to_args(), strings(&["merge-base", "--is-ancestor", "abc", "HEAD"]));
    let q = Query::ExpandHash { abbrev: "abc".to_string() };
    assert_eq!(q.to_args(), strings(&["rev-parse", "abc"]));
    let q = Query::SearchByMessage { pattern: "Fixes: abc".to_string(), range: "a..b".to_string() };
    assert_eq!(q.to_args(), strings(&["log", "--format=%H", "--grep", "Fixes: abc", "a..b"]));
}

#[test]
fn reply_hits_are_trimmed_nonblank_lines() {
    assert_eq!(ok(" a1 \n\n  \nb2\r\nc3").hits(), strings(&["a1", "b2", "c3"]));
    assert_eq!(ok(" a1 \nb2\n").first_hit().as_deref(), Some("a1"));
    assert!(ok("\n a1").has_hits());
    assert_eq!(ok(" \n\t\n").hits(), Vec::<String>::new());
    assert_eq!(ok(" \n\t\n").first_hit(), None);
    assert!(!ok(" \n\t\n").has_hits());
}

#[test]
fn failed_reply_has_no_hits() {
    assert_eq!(failed().hits(), Vec::<String>::new());
    assert_eq!(failed().first_hit(), None);
    assert!(!failed().has_hits());
}

#[test]
fn change_id_is_first_trailer_in_message() {
    let body = format!("Subject\n\nBody text\nChange-Id: {}  \nChange-Id: Iother\n", CID);
    assert_eq!(find_change_id(&body).as_deref(), Some(CID));
}

#[test]
fn change_id_must_start_the_line_and_begin_with_i() {
    assert_eq!(find_change_id(&format!(" Change-Id: {}\n", CID)), None);
    assert_eq!(find_change_id("Change-Id: X123\n"), None);
    assert_eq!(find_change_id("Change-Id:I123\n"), None);
    assert_eq!(find_change_id("no trailers at all"), None);
    assert_eq!(find_change_id(""), None);
}

#[test]
fn trailers_are_read_in_order() {
    let body = "Was-Change-Id: Iaaa\ntext\nWas-Change-Id: Ibbb \r\nChange-Id: Iccc\n";
    assert_eq!(read_id_trailers(body, "Was-Change-Id: "), strings(&["Iaaa", "Ibbb"]));
    assert_eq!(read_id_trailers(body, "Change-Id: "), strings(&["Iccc"]));
}

#[test]
fn was_change_ids_of_failed_query_are_none() {
    assert_eq!(get_was_change_ids(&ok("Was-Change-Id: Iaaa\n")), strings(&["Iaaa"]));
    assert_eq!(get_was_change_ids(&failed()), Vec::<String>::new());
}

#[test]
fn explicit_fix_by_short_hash() {
    let original = "deadbee0000000000000000000000000000000000";
    assert!(is_explicit_fix(&ok("Fix it\n\nFixes: deadbee (\"Original subject\")\n"), original));
    assert!(is_explicit_fix(&ok("Fix it\n\n   Fixes: deadbee\n"), original));
    assert!(is_explicit_fix(&ok("Fix it\n\nFixes:   deadbee0000\n"), original));
}

#[test]
fn explicit_fix_by_longer_hash_than_original() {
    assert!(is_explicit_fix(&ok("Fixes: deadbee0000\n"), "deadbee"));
}

#[test]
fn mention_without_fixes_trailer_is_no_explicit_fix() {
    let original = "deadbee0000000000000000000000000000000000";
    assert!(!is_explicit_fix(&ok("Follow-up to deadbee\n\nSee deadbee for context\n"), original));
    assert!(!is_explicit_fix(&ok("Fixes: 1234567\n"), original));
    assert!(!is_explicit_fix(&ok("Fixes:deadbee\n"), original));
    assert!(!is_explicit_fix(&ok(""), original));
}

#[test]
fn failed_message_query_is_no_explicit_fix() {
    let r = Reply { success: false, output: "Fixes: deadbee\n".to_string(), diagnostics: String::new() };
    assert!(!is_explicit_fix(&r, "deadbee"));
}

#[test]
fn commit_title_is_trimmed_subject() {
    assert_eq!(get_commit_title(&ok("  A subject \n")).as_deref(), Some("A subject"));
    assert_eq!(get_commit_title(&ok(" \n")), None);
    assert_eq!(get_commit_title(&failed()), None);
}

#[test]
fn fetch_change_id_fills_missing_field_only() {
    let mut c = CommitInfo::from_hash("abc".to_string());
    c.fetch_change_id_if_missing(&failed());
    assert_eq!(c.change_id, None);
    c.fetch_change_id_if_missing(&ok(&format!("S\n\nChange-Id: {}\n", CID)));
    assert_eq!(c.change_id.as_deref(), Some(CID));
    c.fetch_change_id_if_missing(&ok("S\n\nChange-Id: Iother\n"));
    assert_eq!(c.change_id.as_deref(), Some(CID));
}

#[test]
fn expand_hash_takes_full_length_answer_only() {
    let mut c = CommitInfo::from_hash("abc".to_string());
    c.expand_hash_to_full(&failed());
    assert_eq!(c.hash, "abc");
    c.expand_hash_to_full(&ok("abcdef\n"));
    assert_eq!(c.hash, "abc");
    c.expand_hash_to_full(&ok(&format!("  {}\n", full("abc"))));
    assert_eq!(c.hash, full("abc"));
    assert!(c.has_full_hash());
    c.expand_hash_to_full(&ok(&format!("{}\n", full("fff"))));
    assert_eq!(c.hash, full("abc"));
}

#[test]
fn fetch_title_expands_hash_as_well() {
    let mut c = CommitInfo::from_hash("abc".to_string());
    c.fetch_title_if_missing(&ok(&full("abc")), &ok("The subject\n"));
    assert_eq!(c.hash, full("abc"));
    assert_eq!(c.title.as_deref(), Some("The subject"));
    c.fetch_title_if_missing(&ok(&full("abc")), &ok("Another subject\n"));
    assert_eq!(c.title.as_deref(), Some("The subject"));
}

#[test]
fn fetch_title_expands_hash_even_if_title_is_known() {
    let mut c = CommitInfo { hash: "abc".to_string(), change_id: None, title: Some("T".to_string()) };
    c.fetch_title_if_missing(&ok(&full("abc")), &failed());
    assert_eq!(c.hash, full("abc"));
    assert_eq!(c.title.as_deref(), Some("T"));
}

#[test]
fn enrichment_is_idempotent() {
    let message = ok(&format!("S\n\nChange-Id: {}\n", CID));
    let expanded = ok(&full("abc"));
    let subject = ok("S\n");
    let mut once = CommitInfo::from_hash("abc".to_string());
    once.fetch_change_id_if_missing(&message);
    once.fetch_title_if_missing(&expanded, &subject);
    let mut twice = once.clone();
    twice.fetch_change_id_if_missing(&message);
    twice.fetch_title_if_missing(&expanded, &subject);
    assert_eq!(once.hash, twice.hash);
    assert_eq!(once.change_id, twice.change_id);
    assert_eq!(once.title, twice.title);
    assert_eq!(twice.hash, full("abc"));
    assert_eq!(twice.change_id.as_deref(), Some(CID));
    assert_eq!(twice.title.as_deref(), Some("S"));
}

#[test]
fn enrichment_asks_message_then_hash_then_subject() {
    let e = Enrichment::begin(CommitInfo::from_hash("abc".to_string()));
    assert_eq!(e.stage, EnrichStage::ChangeId);
    assert_eq!(e.pending().unwrap().to_args(), strings(&["log", "--format=%B", "-n", "1", "abc"]));
    let e = e.resume(&ok(&format!("S\n\nChange-Id: {}\n", CID)));
    assert_eq!(e.stage, EnrichStage::FullHash);
    assert_eq!(e.pending().unwrap().to_args(), strings(&["rev-parse", "abc"]));
    let e = e.resume(&ok(&full("abc")));
    assert_eq!(e.stage, EnrichStage::Title);
    assert_eq!(
        e.pending().unwrap().to_args(),
        vec!["log".to_string(), "--format=%s".to_string(), "-n".to_string(), "1".to_string(), full("abc")]
    );
    let e = e.resume(&ok("S\n"));
    assert_eq!(e.stage, EnrichStage::Done);
    assert!(e.pending().is_none());
    assert_eq!(e.commit.hash, full("abc"));
    assert_eq!(e.commit.change_id.as_deref(), Some(CID));
    assert_eq!(e.commit.title.as_deref(), Some("S"));
}

#[test]
fn enrichment_skips_what_is_known() {
    let c = CommitInfo { hash: full("abc"), change_id: Some(CID.to_string()), title: None };
    let e = Enrichment::begin(c);
    assert_eq!(e.stage, EnrichStage::Title);
    let e = e.resume(&failed());
    assert_eq!(e.stage, EnrichStage::Done);
    assert_eq!(e.commit.title, None);

    let c = CommitInfo { hash: full("abc"), change_id: Some(CID.to_string()), title: Some("T".to_string()) };
    let e = Enrichment::begin(c);
    assert_eq!(e.stage, EnrichStage::Done);
    assert!(e.pending().is_none());
}

#[test]
fn enrichment_keeps_short_hash_when_expansion_fails() {
    let e = Enrichment::begin(CommitInfo::from_hash("abc".to_string()));
    let e = e.resume(&failed());
    assert_eq!(e.stage, EnrichStage::FullHash);
    let e = e.resume(&failed());
    assert_eq!(e.stage, EnrichStage::Title);
    match e.pending() {
        Some(Query::CommitSubject { hash }) => assert_eq!(hash, "abc"),
        other => panic!("unexpected: {:?}", other),
    }
    let e = e.resume(&ok("T"));
    assert_eq!(e.commit.hash, "abc");
    assert_eq!(e.commit.title.as_deref(), Some("T"));
}

#[test]
fn fixes_trailer_marks_a_fix_and_a_bare_mention_does_not() {
    let original = "deadbee123456789012345678901234567890abcd";
    let fix = ok("Repair the thing\n\nFixes: deadbee\n");
    let mention = ok("Touch the thing again\n\nThis builds on deadbee.\n");
    assert!(is_explicit_fix(&fix, original));
    assert!(!is_explicit_fix(&mention, original));
}

fn enrich_from(commit: CommitInfo, answer: &dyn Fn(&Query) -> Reply) -> (CommitInfo, usize) {
    let mut e = Enrichment::begin(commit);
    let mut asked = 0;
    while let Some(q) = e.pending() {
        asked += 1;
        e = e.resume(&answer(&q));
    }
    assert_eq!(e.stage, EnrichStage::Done);
    (e.commit, asked)
}

#[test]
fn enriching_twice_changes_nothing() {
    let answer = |q: &Query| -> Reply {
        match q {
            Query::CommitBody { .. } => ok(&format!("S\n\nChange-Id: {}\n", CID)),
            Query::ExpandHash { abbrev } if abbrev == "abc" => ok(&full("abc")),
            Query::CommitSubject { hash } if *hash == full("abc") => ok("S\n"),
            other => panic!("unexpected query: {:?}", other),
        }
    };
    let (once, asked) = enrich_from(CommitInfo::from_hash("abc".to_string()), &answer);
    assert_eq!(asked, 3);
    let (twice, asked) = enrich_from(once.clone(), &answer);
    assert_eq!(asked, 0);
    assert_eq!(twice.hash, once.hash);
    assert_eq!(twice.change_id, once.change_id);
    assert_eq!(twice.title, once.title);
}

#[test]
fn enriching_twice_asks_again_for_what_is_still_missing() {
    let answer = |q: &Query| -> Reply {
        match q {
            Query::CommitBody { .. } => ok("S\n\nno trailer\n"),
            Query::ExpandHash { .. } => failed(),
            Query::CommitSubject { .. } => ok(" \n"),
            other => panic!("unexpected query: {:?}", other),
        }
    };
    let (once, asked) = enrich_from(CommitInfo::from_hash("abc".to_string()), &answer);
    assert_eq!(asked, 3);
    assert_eq!((once.hash.as_str(), &once.change_id, &once.title), ("abc", &None, &None));
    let (twice, asked) = enrich_from(once.clone(), &answer);
    assert_eq!(asked, 3);
    assert_eq!((twice.hash.as_str(), &twice.change_id, &twice.title), ("abc", &None, &None));
}
