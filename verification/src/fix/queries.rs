//! The ranges and patterns that the search for fixes asks about.

use crate::text::{chars_of, copy_range, string_of};
use crate::vcs::{Query, QueryView};
use vstd::prelude::*;
use vstd::string::*;

verus! {

/// The number of characters of a short hash.
pub const SHORT_HASH_LEN: usize = 7;

/// The short form of a hash: its first seven characters, or all of it if it
/// has fewer.
pub open spec fn short_hash(hash: Seq<char>) -> Seq<char> {
    if hash.len() <= SHORT_HASH_LEN {
        hash
    } else {
        hash.take(SHORT_HASH_LEN as int)
    }
}

/// The reference that stands for the tip of the current branch.
pub open spec fn head() -> Seq<char> {
    "HEAD"@
}

/// The commits reachable from `to` and not from `from`.
pub open spec fn range_between(from: Seq<char>, to: Seq<char>) -> Seq<char> {
    from + ".."@ + to
}

/// The pattern found in the message of a commit with the Change-Id `id`.
pub open spec fn change_id_pattern(id: Seq<char>) -> Seq<char> {
    "Change-Id: "@ + id
}

/// The pattern found in the message of a commit that declares to fix
/// `original`.
pub open spec fn fixes_pattern(original: Seq<char>) -> Seq<char> {
    "Fixes: "@ + short_hash(original)
}

/// The pattern found in the message of a commit that was cherry-picked from
/// `hash`.
pub open spec fn cherry_pick_pattern(hash: Seq<char>) -> Seq<char> {
    "cherry picked from commit "@ + hash
}

/// The short form of a hash.
pub fn shorten(hash: &str) -> (r: String)
    ensures
        r@ == short_hash(hash@),
{
    let chars = chars_of(hash);
    if chars.len() <= SHORT_HASH_LEN {
        string_of(&chars)
    } else {
        let short = copy_range(&chars, 0, SHORT_HASH_LEN);
        proof {
            assert(short@ =~= hash@.take(SHORT_HASH_LEN as int));
        }
        string_of(&short)
    }
}

/// `a` followed by `b`.
pub fn concat(a: &str, b: &str) -> (r: String)
    ensures
        r@ == a@ + b@,
{
    let mut r = a.to_string();
    r.append(b);
    r
}

/// The commits reachable from `to` and not from `from`, as git names them.
pub fn range(from: &str, to: &str) -> (r: String)
    ensures
        r@ == range_between(from@, to@),
{
    let mut r = from.to_string();
    r.append("..");
    r.append(to);
    r
}

/// The question for the commits on `ref_branch` with the Change-Id
/// `change_id`.
pub fn find_commit_by_change_id(change_id: &str, ref_branch: &str) -> (q: Query)
    ensures
        q@ == (QueryView::SearchByMessage {
            pattern: change_id_pattern(change_id@),
            range: ref_branch@,
        }),
{
    Query::SearchByMessage {
        pattern: concat("Change-Id: ", change_id),
        range: ref_branch.to_string(),
    }
}

} // verus!
