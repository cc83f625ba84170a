//! Helpers for backporting commits between branches: the commit-list file
//! format, ordering commits by ancestry, and finding upstream fixes.
//!
//! The library starts no process and touches no file. What it needs to know
//! of the repository it asks its caller, one question at a time: a command
//! is a conversation that says which question it waits for and takes the
//! answer, until it is over.
//!
//! ```text
//! let mut session = git_bp::fix::command(args);
//! while let Some(query) = session.pending() {
//!     let reply = /* run git with query.to_args() */;
//!     session = session.resume(&reply);
//! }
//! let result = session.finish();
//! ```
//!
//! Every function states what it returns over character sequences, the views
//! of the strings it takes. For each conversation the library also says what
//! it ends with in a repository, taken as what the repository answers to
//! each question, and proves that the conversation ends, and ends with
//! that.
//!
//! - `text`: white space, words, lines, joining, prefixes, order.
//! - `vcs`: the questions to the version-control system and its answers.
//! - `message`: the trailers of commit messages.
//! - `commits`: commit records and the commit-list file format.
//! - `round_trip`: what is written as a commit list is read back as it was.
//! - `enrich`: filling in the fields that a commit record lacks.
//! - `sort`: ordering commits by the history of a reference.
//! - `pick`: the cherry-pick commands for a list of commits.
//! - `fix`: finding the fixes that the current branch lacks.

pub mod commits;
pub mod enrich;
pub mod fix;
pub mod message;
pub mod pick;
pub mod round_trip;
pub mod sort;
pub mod text;
pub mod vcs;
