//! Reading commit messages: the trailers that tie a commit to its
//! counterparts on other branches.

use crate::text::{
    begins_with, chars_of, copy_range, hash_matches, hashes_match, lines, opt_text, rows,
    split_lines, split_words, starts_with, string_of, texts, trim, trimmed, words,
};
use crate::vcs::{Reply, ReplyView};
use vstd::prelude::*;

verus! {

/// The key of the trailer that holds a commit's Change-Id.
pub open spec fn change_id_key() -> Seq<char> {
    "Change-Id: "@
}

/// The key of the trailer that holds a Change-Id the commit had before.
pub open spec fn was_change_id_key() -> Seq<char> {
    "Was-Change-Id: "@
}

/// The key of the trailer that names the commit that a commit fixes.
pub open spec fn fixes_key() -> Seq<char> {
    "Fixes: "@
}

/// The identifier that `line` holds under `key`: the line begins with the
/// key and the letter `I`, and the identifier is what follows the key,
/// trimmed.
pub open spec fn id_trailer(line: Seq<char>, key: Seq<char>) -> Option<Seq<char>> {
    if starts_with(line, key.push('I')) {
        Some(trim(line.skip(key.len() as int)))
    } else {
        None
    }
}

/// The identifiers that the lines of `body` hold under `key`, in order.
pub open spec fn id_trailers(body: Seq<char>, key: Seq<char>) -> Seq<Seq<char>> {
    lines(body).filter_map(|l: Seq<char>| id_trailer(l, key))
}

/// The Change-Id of a commit with the message `body`: the first that a line
/// holds.
pub open spec fn change_id_in(body: Seq<char>) -> Option<Seq<char>> {
    let ids = id_trailers(body, change_id_key());
    if ids.len() > 0 {
        Some(ids[0])
    } else {
        None
    }
}

/// The earlier Change-Ids that the answer to a message query shows; none
/// where the query failed.
pub open spec fn was_change_ids_in(reply: ReplyView) -> Seq<Seq<char>> {
    if reply.success {
        id_trailers(reply.output, was_change_id_key())
    } else {
        Seq::empty()
    }
}

/// The hash that `line` names as fixed: the line, trimmed, begins with
/// `Fixes: `, and the hash is the first word after that.
pub open spec fn fixes_target(line: Seq<char>) -> Option<Seq<char>> {
    let t = trim(line);
    if starts_with(t, fixes_key()) {
        let w = words(t.skip(fixes_key().len() as int));
        Some(
            if w.len() > 0 {
                w[0]
            } else {
                Seq::empty()
            },
        )
    } else {
        None
    }
}

/// Whether `line` is a `Fixes:` trailer for the commit `original`: the hash
/// it names abbreviates `original`, or `original` abbreviates it.
pub open spec fn names_fix_of(line: Seq<char>, original: Seq<char>) -> bool {
    match fixes_target(line) {
        Some(h) => hash_matches(original, h),
        None => false,
    }
}

/// Whether the answer to a message query shows a commit that is marked as a
/// fix of `original`: the query succeeded and some line of the message is a
/// `Fixes:` trailer for `original`.
pub open spec fn is_explicit_fix_spec(reply: ReplyView, original: Seq<char>) -> bool {
    reply.success && exists|i: int|
        0 <= i < lines(reply.output).len() && names_fix_of(
            #[trigger] lines(reply.output)[i],
            original,
        )
}

/// The title that the answer to a subject query shows: its output, trimmed;
/// none where the query failed or the output is blank.
pub open spec fn title_in(reply: ReplyView) -> Option<Seq<char>> {
    if reply.success && trim(reply.output).len() > 0 {
        Some(trim(reply.output))
    } else {
        None
    }
}

/// The identifiers that the lines of `body` hold under `key`, in order.
pub fn read_id_trailers(body: &str, key: &str) -> (r: Vec<String>)
    ensures
        texts(r@) == id_trailers(body@, key@),
{
    let ls = split_lines(&chars_of(body));
    let key_chars = chars_of(key);
    let mut probe = chars_of(key);
    probe.push('I');
    let ghost all = lines(body@);
    let ghost f = |l: Seq<char>| id_trailer(l, key@);
    let mut r: Vec<String> = Vec::new();
    let mut i: usize = 0;
    proof {
        assert(texts(r@) =~= all.take(0).filter_map(f));
    }
    while i < ls.len()
        invariant
            i <= ls.len(),
            rows(ls@) == all,
            key_chars@ == key@,
            probe@ == key@.push('I'),
            f == |l: Seq<char>| id_trailer(l, key@),
            texts(r@) == all.take(i as int).filter_map(f),
        decreases ls.len() - i,
    {
        proof {
            all.lemma_filter_map_take_succ(f, i as int);
            assert(all[i as int] == ls@[i as int]@);
        }
        if begins_with(&ls[i], &probe) {
            let value = trimmed(&copy_range(&ls[i], key_chars.len(), ls[i].len()));
            let ghost before = r@;
            proof {
                assert(ls@[i as int]@.subrange(key@.len() as int, ls@[i as int]@.len() as int)
                    =~= ls@[i as int]@.skip(key@.len() as int));
            }
            r.push(string_of(&value));
            proof {
                assert(texts(r@) =~= texts(before) + seq![value@]);
            }
        } else {
            proof {
                assert(texts(r@) + Seq::<Seq<char>>::empty() =~= texts(r@));
            }
        }
        i += 1;
    }
    proof {
        assert(all.take(ls.len() as int) =~= all);
    }
    r
}

/// The Change-Id of a commit with the message `body`.
pub fn find_change_id(body: &str) -> (r: Option<String>)
    ensures
        opt_text(r) == change_id_in(body@),
{
    let mut ids = read_id_trailers(body, "Change-Id: ");
    if ids.len() > 0 {
        let ghost all = texts(ids@);
        let first = ids.swap_remove(0);
        proof {
            assert(first@ == all[0]);
        }
        Some(first)
    } else {
        None
    }
}

/// The earlier Change-Ids of a commit, read from the answer to the query for
/// its message.
pub fn get_was_change_ids(message: &Reply) -> (r: Vec<String>)
    ensures
        texts(r@) == was_change_ids_in(message@),
{
    if message.success {
        read_id_trailers(message.output.as_str(), "Was-Change-Id: ")
    } else {
        let r: Vec<String> = Vec::new();
        proof {
            assert(texts(r@) =~= Seq::<Seq<char>>::empty());
        }
        r
    }
}

/// Whether a commit is marked as a fix of `original_commit`, read from the
/// answer to the query for its message.
pub fn is_explicit_fix(message: &Reply, original_commit: &str) -> (r: bool)
    ensures
        r == is_explicit_fix_spec(message@, original_commit@),
{
    if !message.success {
        return false;
    }
    let ls = split_lines(&chars_of(message.output.as_str()));
    let original = chars_of(original_commit);
    let key = chars_of("Fixes: ");
    let ghost all = lines(message.output@);
    let mut i: usize = 0;
    while i < ls.len()
        invariant
            i <= ls.len(),
            message.success,
            rows(ls@) == all,
            all == lines(message.output@),
            original@ == original_commit@,
            key@ == fixes_key(),
            forall|j: int| 0 <= j < i ==> !names_fix_of(#[trigger] all[j], original_commit@),
        decreases ls.len() - i,
    {
        let t = trimmed(&ls[i]);
        proof {
            assert(all[i as int] == ls@[i as int]@);
        }
        if begins_with(&t, &key) {
            let rest = copy_range(&t, key.len(), t.len());
            proof {
                assert(rest@ =~= t@.skip(key@.len() as int));
            }
            let tokens = split_words(&rest);
            let empty: Vec<char> = Vec::new();
            let named = if tokens.len() > 0 {
                &tokens[0]
            } else {
                &empty
            };
            proof {
                assert(Some(named@) == fixes_target(all[i as int]));
            }
            if hashes_match(&original, named) {
                proof {
                    assert(names_fix_of(lines(message@.output)[i as int], original_commit@));
                }
                return true;
            }
        }
        i += 1;
    }
    false
}

/// The title of a commit, read from the answer to the query for its subject.
pub fn get_commit_title(subject: &Reply) -> (r: Option<String>)
    ensures
        opt_text(r) == title_in(subject@),
{
    if !subject.success {
        return None;
    }
    let title = trimmed(&chars_of(subject.output.as_str()));
    if title.len() == 0 {
        None
    } else {
        Some(string_of(&title))
    }
}

} // verus!
