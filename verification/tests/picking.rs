use git_bp::commits::ParseError;
use git_bp::pick::{command, Args};

#[test]
fn pick_writes_one_command_per_commit_in_input_order() {
    let args = Args { commits: vec!["b2".to_string(), "a1".to_string()], commits_file: None };
    assert_eq!(
        command(args, "").unwrap(),
        vec![
            "git cherry-pick -x --signoff b2".to_string(),
            "git cherry-pick -x --signoff a1".to_string()
        ]
    );
}

#[test]
fn pick_reads_commits_from_file() {
    let args = Args { commits: vec![], commits_file: Some("list".to_string()) };
    let lines = command(args, "# vim: ft=x\n# c\nabc Title\n\ndef\n").unwrap();
    assert_eq!(
        lines,
        vec![
            "git cherry-pick -x --signoff abc".to_string(),
            "git cherry-pick -x --signoff def".to_string()
        ]
    );
}

#[test]
fn pick_rejects_file_without_commits() {
    let args = Args { commits: vec![], commits_file: Some("list".to_string()) };
    assert_eq!(command(args, "\n\n").unwrap_err(), ParseError::EmptyInput);
}
