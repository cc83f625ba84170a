//! Finding upstream fixes for backported commits.
//!
//! A commit on the current branch is traced to its originals on a reference
//! branch through its Change-Id and its earlier Change-Ids. For each original
//! the reference branch is searched for commits that declare to fix it and
//! are not yet applied here, and for commits that mention it without such a
//! declaration, which are reported.
//!
//! Every search is a conversation: a value that says which question it waits
//! for (`pending`) and takes the answer (`resume`), until no question is
//! left.

pub mod applied;
pub mod audit;
pub mod originals;
pub mod queries;
pub mod report;
pub mod search;
pub mod session;
pub mod unique;

pub use crate::fix::applied::is_commit_already_applied;
pub use crate::fix::audit::find_references_for_commit;
pub use crate::fix::originals::find_all_original_commits;
pub use crate::fix::queries::find_commit_by_change_id;
pub use crate::fix::search::find_fixes_for_commit;
pub use crate::fix::session::{
    command, get_commits_in_range, Args, FixError, FixSession, SessionStage,
};
pub use crate::fix::unique::{dedup_fixes, output_commits_file};
