//! Writing out the cherry-pick commands for a list of commits.

use crate::commits::{
    bare_commits, commit_views, commits_of, parse_spec, CommitView, CommitsFile, CommitsParser,
    ParseError,
};
use crate::text::{opt_text, texts};
use vstd::prelude::*;
use vstd::string::*;

verus! {

/// What the writing of cherry-pick commands is told.
#[derive(Debug)]
pub struct Args {
    /// The commits to pick, where no file names them.
    pub commits: Vec<String>,
    /// The commit-list file that names the commits to pick.
    pub commits_file: Option<String>,
}

/// The command that picks the commit `hash`.
pub open spec fn pick_line(hash: Seq<char>) -> Seq<char> {
    "git cherry-pick -x --signoff "@ + hash
}

/// The commands that pick the commits `cs`, in order.
pub open spec fn pick_lines(cs: Seq<CommitView>) -> Seq<Seq<char>> {
    Seq::new(cs.len(), |i: int| pick_line(cs[i].hash))
}

/// The commits that `command` writes commands for; none where the
/// commit-list file holds no commit. They are those of the file with the
/// content `content`, if a file is named, else those named directly.
pub open spec fn commits_to_pick(
    commits: Seq<Seq<char>>,
    commits_file: Option<Seq<char>>,
    content: Seq<char>,
) -> Option<Seq<CommitView>> {
    match commits_file {
        Some(_) => if parse_spec(content).1.len() == 0 {
            None
        } else {
            Some(commits_of(parse_spec(content).1))
        },
        None => Some(bare_commits(commits)),
    }
}

/// The lines to print: one cherry-pick command for each commit that `args`
/// names, in the order in which it names them. `file_content` is what the
/// commit-list file holds, if `args` names one. Fails if that file holds no
/// commit.
pub fn command(args: Args, file_content: &str) -> (r: Result<Vec<String>, ParseError>)
    ensures
        match r {
            Ok(lines) => match commits_to_pick(
                texts(args.commits@),
                opt_text(args.commits_file),
                file_content@,
            ) {
                Some(cs) => texts(lines@) == pick_lines(cs),
                None => false,
            },
            Err(e) => e == ParseError::EmptyInput && commits_to_pick(
                texts(args.commits@),
                opt_text(args.commits_file),
                file_content@,
            ) is None,
        },
{
    let Args { commits, commits_file } = args;
    let file = match commits_file {
        Some(path) => Some(CommitsFile { path, content: file_content.to_string() }),
        None => None,
    };
    let infos = match CommitsParser::get_commits(commits, file) {
        Ok((infos, _)) => infos,
        Err(e) => {
            return Err(e);
        },
    };
    proof {
        assert(commit_views(infos@).len() == infos.len());
        assert(commits_of(parse_spec(file_content@).1).len() == parse_spec(file_content@).1.len());
    }
    let ghost cs = commit_views(infos@);
    let mut lines: Vec<String> = Vec::new();
    let mut i: usize = 0;
    while i < infos.len()
        invariant
            i <= infos.len(),
            cs == commit_views(infos@),
            lines.len() == i,
            forall|j: int| 0 <= j < i ==> (#[trigger] lines@[j])@ == pick_line(cs[j].hash),
        decreases infos.len() - i,
    {
        let mut line = "git cherry-pick -x --signoff ".to_string();
        line.append(infos[i].hash.as_str());
        lines.push(line);
        i += 1;
    }
    proof {
        assert(texts(lines@) =~= pick_lines(cs));
    }
    Ok(lines)
}

} // verus!
