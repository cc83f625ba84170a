//! Laws of the commit-list format: what is written as a commit list is
//! read back as it was.
//!
//! The law holds of well-formed lists: lists whose parts could have come
//! out of a commit-list file. Reading gives nothing else, as long as none
//! of the modelines and comments that it keeps ends with a carriage return.

use crate::commits::{
    default_modeline, entries_lines, entries_of, entry_lines, file_lines, is_change_id,
    is_commit_line, is_modeline, last_change_id, line_fields, line_of, modeline_count,
    parse_line_spec, parse_spec, serialize_spec, title_of, title_words, CommitView, EntryView,
};
use crate::text::{
    blank, is_line, is_space, is_word, join, lemma_join_nested, lemma_joined_words_shape,
    lemma_lines_hold_no_line_feed, lemma_lines_of_joined, lemma_trim_keeps, lemma_trimmed_shape,
    lemma_word_len_bounds, lemma_words_are_words, lemma_words_of_joined, lines, starts_with, trim,
    word_len, words,
};
use vstd::prelude::*;

verus! {

/// Whether `t` can be the title of a commit in a commit list: it has a
/// word, its words are separated by single blanks, and none of them reads
/// as a Change-Id.
pub open spec fn is_title(t: Seq<char>) -> bool {
    &&& words(t).len() > 0
    &&& join(words(t), blank()) == t
    &&& forall|k: int| 0 <= k < words(t).len() ==> !is_change_id(#[trigger] words(t)[k])
}

/// Whether `c` can be a commit of a commit list: its hash is a word that
/// does not begin with `#`, its Change-Id, if any, is a word that reads as
/// one, and its title, if any, is a title.
pub open spec fn is_listed_commit(c: CommitView) -> bool {
    &&& is_word(c.hash)
    &&& c.hash[0] != '#'
    &&& c.change_id matches Some(id) ==> is_word(id) && is_change_id(id)
    &&& c.title matches Some(t) ==> is_title(t)
}

/// Whether `l` can be a comment of a commit list: a line that is not read
/// as a commit line.
pub open spec fn is_comment(l: Seq<char>) -> bool {
    is_line(l) && !is_commit_line(l)
}

/// Whether `e` can be an entry of a commit list.
pub open spec fn is_listed_entry(e: EntryView) -> bool {
    &&& is_listed_commit(e.commit)
    &&& forall|k: int| 0 <= k < e.comments.len() ==> is_comment(#[trigger] e.comments[k])
}

/// Whether the modelines and entries are those of a commit list: the
/// modelines are lines that read as modelines, the entries can be entries,
/// and the first comment of the first entry does not read as a modeline.
pub open spec fn well_formed(modelines: Seq<Seq<char>>, es: Seq<EntryView>) -> bool {
    &&& forall|i: int|
        0 <= i < modelines.len() ==> is_line(#[trigger] modelines[i]) && is_modeline(modelines[i])
    &&& forall|i: int| 0 <= i < es.len() ==> is_listed_entry(#[trigger] es[i])
    &&& es.len() > 0 && es[0].comments.len() > 0 ==> !is_modeline(es[0].comments[0])
}

/// The modelines that a written list shows: the given ones, or the default
/// one where none is given.
pub open spec fn shown_modelines(modelines: Seq<Seq<char>>) -> Seq<Seq<char>> {
    if modelines.len() == 0 {
        seq![default_modeline()]
    } else {
        modelines
    }
}

/// The words of the line that shows the commit `c`.
pub open spec fn line_words(c: CommitView) -> Seq<Seq<char>> {
    seq![c.hash] + (match c.change_id {
        Some(id) => seq![id],
        None => Seq::empty(),
    }) + (match c.title {
        Some(t) => words(t),
        None => Seq::empty(),
    })
}

proof fn lemma_line_is_joined_words(c: CommitView)
    requires
        is_listed_commit(c),
    ensures
        line_of(c) == join(line_words(c), blank()),
        forall|k: int| 0 <= k < line_words(c).len() ==> is_word(#[trigger] line_words(c)[k]),
{
    let head = seq![c.hash] + (match c.change_id {
        Some(id) => seq![id],
        None => Seq::empty(),
    });
    match c.title {
        Some(t) => {
            lemma_words_are_words(t);
            lemma_join_nested(head, words(t), blank());
            assert(line_fields(c) =~= head.push(t));
            assert(line_words(c) =~= head + words(t));
        },
        None => {
            assert(line_fields(c) =~= head);
            assert(line_words(c) =~= head);
        },
    }
    assert forall|k: int| 0 <= k < line_words(c).len() implies is_word(
        #[trigger] line_words(c)[k],
    ) by {
        if k >= head.len() {
            assert(line_words(c)[k] == words(c.title->0)[k - head.len()]);
        }
    }
}

proof fn lemma_last_change_id_before_words(pre: Seq<Seq<char>>, tail: Seq<Seq<char>>)
    requires
        forall|k: int| 0 <= k < tail.len() ==> !is_change_id(#[trigger] tail[k]),
    ensures
        last_change_id(pre + tail) == last_change_id(pre),
    decreases tail.len(),
{
    if tail.len() == 0 {
        assert(pre + tail =~= pre);
    } else {
        let all = pre + tail;
        assert(all.last() == tail.last());
        assert(all.drop_last() =~= pre + tail.drop_last());
        lemma_last_change_id_before_words(pre, tail.drop_last());
    }
}

proof fn lemma_title_words_keep(tail: Seq<Seq<char>>)
    requires
        forall|k: int| 0 <= k < tail.len() ==> !is_change_id(#[trigger] tail[k]),
    ensures
        title_words(tail) == tail,
    decreases tail.len(),
{
    reveal(Seq::filter);
    if tail.len() > 0 {
        lemma_title_words_keep(tail.drop_last());
        assert(tail.drop_last().push(tail.last()) =~= tail);
    }
}

/// A modeline begins, after its leading white space, with `#`.
pub proof fn lemma_modeline_begins_with_hash(l: Seq<char>)
    requires
        is_modeline(l),
    ensures
        trim(l).len() > 0,
        trim(l)[0] == '#',
{
    reveal_strlit("# vim:");
    reveal_strlit("# vi:");
    let t = trim(l);
    if starts_with(t, "# vim:"@) {
        assert(t.take(6)[0] == '#');
    } else {
        assert(t.take(5)[0] == '#');
    }
}

proof fn lemma_commit_line_shape(c: CommitView)
    requires
        is_listed_commit(c),
    ensures
        is_line(line_of(c)),
        is_commit_line(line_of(c)),
        !is_modeline(line_of(c)),
        trim(line_of(c)) == line_of(c),
{
    let l = line_of(c);
    let ws = line_words(c);
    lemma_line_is_joined_words(c);
    lemma_joined_words_shape(ws);
    lemma_trim_keeps(l);
    assert(is_space('\n') && is_space('\r'));
    assert(l[0] == c.hash[0]);
    assert(is_line(l)) by {
        assert forall|i: int| 0 <= i < l.len() implies #[trigger] l[i] != '\n' by {
            assert(l[i] == ' ' || !is_space(l[i]));
        }
    }
    if is_modeline(l) {
        lemma_modeline_begins_with_hash(l);
    }
}

proof fn lemma_commit_line_fields(c: CommitView)
    requires
        is_listed_commit(c),
    ensures
        last_change_id(line_words(c).skip(1)) == c.change_id,
        title_of(line_words(c).skip(1)) == c.title,
{
    let ws = line_words(c);
    let pre: Seq<Seq<char>> = match c.change_id {
        Some(id) => seq![id],
        None => Seq::empty(),
    };
    let tail: Seq<Seq<char>> = match c.title {
        Some(t) => words(t),
        None => Seq::empty(),
    };
    assert(ws.skip(1) =~= pre + tail);
    lemma_last_change_id_before_words(pre, tail);
    assert(last_change_id(pre) == c.change_id) by {
        if c.change_id is Some {
            assert(pre.last() == c.change_id->0);
            assert(pre.drop_last().len() == 0);
        }
    }
    lemma_title_words_keep(tail);
    lemma_title_words_drop(pre);
    let keep = |t: Seq<char>| !is_change_id(t);
    Seq::filter_distributes_over_add(pre, tail, keep);
    assert(pre.filter(keep) + tail.filter(keep) =~= tail);
}

proof fn lemma_title_words_drop(pre: Seq<Seq<char>>)
    requires
        forall|k: int| 0 <= k < pre.len() ==> is_change_id(#[trigger] pre[k]),
    ensures
        title_words(pre) == Seq::<Seq<char>>::empty(),
    decreases pre.len(),
{
    reveal(Seq::filter);
    if pre.len() > 0 {
        lemma_title_words_drop(pre.drop_last());
    }
}

/// The line that shows a commit is read as a commit line, and as that
/// commit.
pub proof fn lemma_commit_line_round_trip(c: CommitView)
    requires
        is_listed_commit(c),
    ensures
        is_line(line_of(c)),
        is_commit_line(line_of(c)),
        !is_modeline(line_of(c)),
        trim(line_of(c)) == line_of(c),
        parse_line_spec(line_of(c)) == Some(c),
{
    lemma_commit_line_shape(c);
    lemma_line_is_joined_words(c);
    lemma_words_of_joined(line_words(c));
    lemma_commit_line_fields(c);
    assert(line_words(c)[0] == c.hash);
}

proof fn lemma_entry_is_read(
    comments: Seq<Seq<char>>,
    c: CommitView,
    rest: Seq<Seq<char>>,
    pending: Seq<Seq<char>>,
)
    requires
        is_listed_commit(c),
        forall|k: int| 0 <= k < comments.len() ==> is_comment(#[trigger] comments[k]),
    ensures
        entries_of(comments + seq![line_of(c)] + rest, pending) == seq![
            EntryView { comments: pending + comments, commit: c },
        ] + entries_of(rest, Seq::empty()),
    decreases comments.len(),
{
    let ls = comments + seq![line_of(c)] + rest;
    if comments.len() == 0 {
        lemma_commit_line_round_trip(c);
        assert(ls[0] == line_of(c));
        assert(ls.skip(1) =~= rest);
        assert(pending + comments =~= pending);
    } else {
        assert(ls[0] == comments[0]);
        assert(is_comment(comments[0]));
        let later = comments.skip(1);
        assert forall|k: int| 0 <= k < later.len() implies is_comment(#[trigger] later[k]) by {
            assert(later[k] == comments[k + 1]);
        }
        assert(ls.skip(1) =~= later + seq![line_of(c)] + rest);
        lemma_entry_is_read(later, c, rest, pending.push(comments[0]));
        assert(pending.push(comments[0]) + later =~= pending + comments);
    }
}

proof fn lemma_entries_lines_front(es: Seq<EntryView>)
    requires
        es.len() > 0,
    ensures
        entries_lines(es) == entry_lines(es[0]) + entries_lines(es.skip(1)),
    decreases es.len(),
{
    if es.len() == 1 {
        assert(es.drop_last() =~= Seq::<EntryView>::empty());
        assert(es.skip(1) =~= Seq::<EntryView>::empty());
        assert(entries_lines(es.drop_last()) =~= Seq::<Seq<char>>::empty());
        assert(entries_lines(es.skip(1)) =~= Seq::<Seq<char>>::empty());
        assert(entries_lines(es) =~= entry_lines(es[0]));
        assert(entry_lines(es[0]) + entries_lines(es.skip(1)) =~= entry_lines(es[0]));
    } else {
        let head = es.drop_last();
        lemma_entries_lines_front(head);
        assert(head[0] == es[0]);
        assert(head.skip(1) =~= es.skip(1).drop_last());
        assert(es.skip(1).last() == es.last());
        assert(entries_lines(es) =~= entry_lines(es[0]) + entries_lines(es.skip(1)));
    }
}

/// The lines that show entries are read as those entries.
pub proof fn lemma_entries_round_trip(es: Seq<EntryView>)
    requires
        forall|i: int| 0 <= i < es.len() ==> is_listed_entry(#[trigger] es[i]),
    ensures
        entries_of(entries_lines(es), Seq::empty()) == es,
        forall|k: int| 0 <= k < entries_lines(es).len() ==> is_line(#[trigger] entries_lines(es)[k]),
    decreases es.len(),
{
    if es.len() == 0 {
        assert(entries_of(entries_lines(es), Seq::empty()) =~= es);
    } else {
        let e = es[0];
        let later = es.skip(1);
        assert(is_listed_entry(e));
        assert forall|i: int| 0 <= i < later.len() implies is_listed_entry(#[trigger] later[i]) by {
            assert(later[i] == es[i + 1]);
        }
        lemma_entries_round_trip(later);
        lemma_entries_lines_front(es);
        lemma_entry_is_read(e.comments, e.commit, entries_lines(later), Seq::empty());
        lemma_commit_line_round_trip(e.commit);
        assert(entry_lines(e) =~= e.comments + seq![line_of(e.commit)]);
        assert(Seq::<Seq<char>>::empty() + e.comments =~= e.comments);
        assert(seq![e] + later =~= es);
        assert forall|k: int| 0 <= k < entries_lines(es).len() implies is_line(
            #[trigger] entries_lines(es)[k],
        ) by {
            if k < e.comments.len() {
                assert(entries_lines(es)[k] == e.comments[k]);
                assert(is_comment(e.comments[k]));
            } else if k == e.comments.len() {
                assert(entries_lines(es)[k] == line_of(e.commit));
            } else {
                assert(entries_lines(es)[k] == entries_lines(later)[k - e.comments.len() - 1]);
            }
        }
    }
}

proof fn lemma_modelines_are_counted(ms: Seq<Seq<char>>, rest: Seq<Seq<char>>)
    requires
        forall|i: int| 0 <= i < ms.len() ==> is_modeline(#[trigger] ms[i]),
        rest.len() > 0 ==> !is_modeline(rest[0]),
    ensures
        modeline_count(ms + rest) == ms.len(),
    decreases ms.len(),
{
    let all = ms + rest;
    if ms.len() == 0 {
        assert(all =~= rest);
    } else {
        assert(all[0] == ms[0]);
        let later = ms.skip(1);
        assert forall|i: int| 0 <= i < later.len() implies is_modeline(#[trigger] later[i]) by {
            assert(later[i] == ms[i + 1]);
        }
        assert(all.skip(1) =~= later + rest);
        lemma_modelines_are_counted(later, rest);
    }
}

/// The default modeline is a line that reads as a modeline.
pub proof fn lemma_default_modeline()
    ensures
        is_line(default_modeline()),
        is_modeline(default_modeline()),
{
    let d = default_modeline();
    reveal_strlit("# vim: ft=gitbackportcommits");
    reveal_strlit("# vim:");
    lemma_trim_keeps(d);
    assert(d.take(6) =~= "# vim:"@);
}

/// Round trip: a well-formed commit list that is written and read again
/// comes back with the same entries, the comments with the same commits,
/// and the same modelines, or the default modeline where it had none.
pub proof fn lemma_round_trip(modelines: Seq<Seq<char>>, es: Seq<EntryView>)
    requires
        well_formed(modelines, es),
    ensures
        parse_spec(serialize_spec(modelines, es)) == (shown_modelines(modelines), es),
{
    let ms = shown_modelines(modelines);
    let body = entries_lines(es);
    let all = file_lines(modelines, es);
    lemma_default_modeline();
    lemma_entries_round_trip(es);
    assert(all == ms + body);
    assert forall|k: int| 0 <= k < all.len() implies is_line(#[trigger] all[k]) by {
        if k < ms.len() {
            assert(all[k] == ms[k]);
        } else {
            assert(all[k] == body[k - ms.len()]);
        }
    }
    lemma_lines_of_joined(all);
    if es.len() > 0 {
        lemma_entries_lines_front(es);
        let e = es[0];
        assert(is_listed_entry(e));
        lemma_commit_line_round_trip(e.commit);
        if e.comments.len() > 0 {
            assert(body[0] == e.comments[0]);
        } else {
            assert(body[0] == line_of(e.commit));
        }
    } else {
        assert(body.len() == 0);
    }
    lemma_modelines_are_counted(ms, body);
    assert(all.take(ms.len() as int) =~= ms);
    assert(all.skip(ms.len() as int) =~= body);
}

/// The lines at the head of a text that `modeline_count` counts read as
/// modelines, and the line after them does not.
pub proof fn lemma_modeline_run(ls: Seq<Seq<char>>)
    ensures
        modeline_count(ls) <= ls.len(),
        forall|i: int| 0 <= i < modeline_count(ls) ==> is_modeline(#[trigger] ls[i]),
        modeline_count(ls) < ls.len() ==> !is_modeline(ls[modeline_count(ls) as int]),
    decreases ls.len(),
{
    if ls.len() > 0 && is_modeline(ls[0]) {
        let t = ls.skip(1);
        lemma_modeline_run(t);
        assert forall|i: int| 0 <= i < modeline_count(ls) implies is_modeline(#[trigger] ls[i]) by {
            if i > 0 {
                assert(ls[i] == t[i - 1]);
            }
        }
        if modeline_count(ls) < ls.len() {
            assert(ls[modeline_count(ls) as int] == t[modeline_count(t) as int]);
        }
    }
}

proof fn lemma_last_change_id_is_one(tokens: Seq<Seq<char>>)
    ensures
        last_change_id(tokens) matches Some(id) ==> is_change_id(id) && tokens.contains(id),
    decreases tokens.len(),
{
    if tokens.len() > 0 {
        if is_change_id(tokens.last()) {
            assert(tokens[tokens.len() - 1] == tokens.last());
        } else {
            lemma_last_change_id_is_one(tokens.drop_last());
            if last_change_id(tokens) is Some {
                let id = last_change_id(tokens)->0;
                let i = choose|i: int|
                    0 <= i < tokens.drop_last().len() && tokens.drop_last()[i] == id;
                assert(tokens[i] == id);
            }
        }
    }
}

/// A commit line is read as a commit that can stand in a commit list.
pub proof fn lemma_read_commit_is_listed(l: Seq<char>)
    requires
        is_commit_line(l),
    ensures
        parse_line_spec(trim(l)) is Some,
        is_listed_commit(parse_line_spec(trim(l))->0),
{
    let t = trim(l);
    lemma_trimmed_shape(l);
    lemma_words_are_words(t);
    lemma_word_len_bounds(t);
    let tokens = words(t);
    let n = word_len(t) as int;
    assert(tokens == seq![t.take(n)] + words(t.skip(n)));
    assert(tokens[0] == t.take(n));
    assert(tokens[0][0] == t[0]);
    let c = parse_line_spec(t)->0;
    let rest = tokens.skip(1);
    assert forall|k: int| 0 <= k < rest.len() implies is_word(#[trigger] rest[k]) by {
        assert(rest[k] == tokens[k + 1]);
    }
    lemma_last_change_id_is_one(rest);
    if c.change_id is Some {
        let id = c.change_id->0;
        let i = choose|i: int| 0 <= i < rest.len() && rest[i] == id;
        assert(is_word(rest[i]));
    }
    if c.title is Some {
        let keep = |w: Seq<char>| !is_change_id(w);
        let tw = title_words(rest);
        assert forall|k: int| 0 <= k < tw.len() implies is_word(#[trigger] tw[k])
            && !is_change_id(tw[k]) by {
            rest.lemma_filter_pred(keep, k);
            assert(tw.contains(tw[k]));
            rest.lemma_filter_contains_rev(keep, tw[k]);
            let i = choose|i: int| 0 <= i < rest.len() && rest[i] == tw[k];
            assert(is_word(rest[i]));
        }
        lemma_words_of_joined(tw);
    }
}

/// Whether `l` holds no line feed.
pub open spec fn is_one_line(l: Seq<char>) -> bool {
    forall|i: int| 0 <= i < l.len() ==> #[trigger] l[i] != '\n'
}

/// Whether `e` is an entry as reading gives it: its commit can stand in a
/// commit list, and its comments are single lines that are not read as
/// commit lines.
pub open spec fn is_read_entry(e: EntryView) -> bool {
    &&& is_listed_commit(e.commit)
    &&& forall|k: int|
        0 <= k < e.comments.len() ==> is_one_line(#[trigger] e.comments[k]) && !is_commit_line(
            e.comments[k],
        )
}

proof fn lemma_read_entries_shape(ls: Seq<Seq<char>>, pending: Seq<Seq<char>>)
    requires
        forall|k: int| 0 <= k < ls.len() ==> is_one_line(#[trigger] ls[k]),
        forall|k: int|
            0 <= k < pending.len() ==> is_one_line(#[trigger] pending[k]) && !is_commit_line(
                pending[k],
            ),
    ensures
        forall|i: int|
            0 <= i < entries_of(ls, pending).len() ==> is_read_entry(
                #[trigger] entries_of(ls, pending)[i],
            ),
        entries_of(ls, pending).len() > 0 && entries_of(ls, pending)[0].comments.len() > 0
            ==> entries_of(ls, pending)[0].comments[0] == (pending + ls)[0],
    decreases ls.len(),
{
    if ls.len() > 0 {
        let l = ls[0];
        let later = ls.skip(1);
        assert(is_one_line(l));
        assert forall|k: int| 0 <= k < later.len() implies is_one_line(#[trigger] later[k]) by {
            assert(later[k] == ls[k + 1]);
        }
        if is_commit_line(l) {
            lemma_read_commit_is_listed(l);
            let none = Seq::<Seq<char>>::empty();
            lemma_read_entries_shape(later, none);
            let e = EntryView { comments: pending, commit: parse_line_spec(trim(l))->0 };
            assert(entries_of(ls, pending) == seq![e] + entries_of(later, none));
            assert forall|i: int| 0 <= i < entries_of(ls, pending).len() implies is_read_entry(
                #[trigger] entries_of(ls, pending)[i],
            ) by {
                if i > 0 {
                    assert(entries_of(ls, pending)[i] == entries_of(later, none)[i - 1]);
                }
            }
        } else {
            let held = pending.push(l);
            assert forall|k: int| 0 <= k < held.len() implies is_one_line(#[trigger] held[k])
                && !is_commit_line(held[k]) by {
                if k < pending.len() {
                    assert(held[k] == pending[k]);
                }
            }
            lemma_read_entries_shape(later, held);
            assert((held + later)[0] == (pending + ls)[0]);
        }
    }
}

/// Whether none of the lines that the list keeps as they were written, its
/// modelines and its comments, ends with a carriage return.
pub open spec fn is_plain(modelines: Seq<Seq<char>>, es: Seq<EntryView>) -> bool {
    &&& forall|i: int|
        0 <= i < modelines.len() && (#[trigger] modelines[i]).len() > 0 ==> modelines[i].last()
            != '\r'
    &&& forall|i: int, k: int|
        0 <= i < es.len() && 0 <= k < es[i].comments.len() && (#[trigger] es[i].comments[k]).len()
            > 0 ==> es[i].comments[k].last() != '\r'
}

/// What is read from a commit-list file is a well-formed commit list, as
/// long as none of the modelines and comments read ends with a carriage
/// return.
pub proof fn lemma_read_list_is_well_formed(content: Seq<char>)
    requires
        is_plain(parse_spec(content).0, parse_spec(content).1),
    ensures
        well_formed(parse_spec(content).0, parse_spec(content).1),
{
    let ls = lines(content);
    let k = modeline_count(ls) as int;
    let ms = ls.take(k);
    let body = ls.skip(k);
    let none = Seq::<Seq<char>>::empty();
    lemma_lines_hold_no_line_feed(content);
    lemma_modeline_run(ls);
    assert forall|i: int| 0 <= i < body.len() implies is_one_line(#[trigger] body[i]) by {
        assert(body[i] == ls[i + k]);
    }
    lemma_read_entries_shape(body, none);
    let es = entries_of(body, none);
    if es.len() > 0 && es[0].comments.len() > 0 {
        assert((none + body)[0] == body[0]);
        assert(body[0] == ls[k]);
    }
    assert forall|i: int| 0 <= i < ms.len() implies is_line(#[trigger] ms[i]) && is_modeline(
        ms[i],
    ) by {
        assert(ms[i] == ls[i]);
    }
    assert forall|i: int| 0 <= i < es.len() implies is_listed_entry(#[trigger] es[i]) by {
        assert(is_read_entry(es[i]));
        assert forall|j: int| 0 <= j < es[i].comments.len() implies is_comment(
            #[trigger] es[i].comments[j],
        ) by {
            assert(is_one_line(es[i].comments[j]));
        }
    }
}

/// Idempotent round trip: reading a commit-list file, writing what was
/// read, and reading that again gives the same entries, the comments with
/// the same commits, and the same modelines, or the default modeline where
/// the file had none. This holds of every file of which reading keeps no
/// line that ends with a carriage return; a line that does comes back
/// without it.
pub proof fn lemma_read_write_read(content: Seq<char>)
    requires
        is_plain(parse_spec(content).0, parse_spec(content).1),
    ensures
        ({
            let (modelines, es) = parse_spec(content);
            parse_spec(serialize_spec(modelines, es)) == (shown_modelines(modelines), es)
        }),
{
    lemma_read_list_is_well_formed(content);
    lemma_round_trip(parse_spec(content).0, parse_spec(content).1);
}

/// Reading finds no entry if and only if no line after the modelines is a
/// commit line: a line that is not blank and does not begin, after its
/// leading white space, with `#`.
pub proof fn lemma_no_entries_iff_no_commit_line(ls: Seq<Seq<char>>, pending: Seq<Seq<char>>)
    ensures
        entries_of(ls, pending).len() == 0 <==> forall|k: int|
            0 <= k < ls.len() ==> !is_commit_line(#[trigger] ls[k]),
    decreases ls.len(),
{
    if ls.len() > 0 {
        let later = ls.skip(1);
        if is_commit_line(ls[0]) {
            lemma_read_commit_is_listed(ls[0]);
        } else {
            lemma_no_entries_iff_no_commit_line(later, pending.push(ls[0]));
            if forall|k: int| 0 <= k < later.len() ==> !is_commit_line(#[trigger] later[k]) {
                assert forall|k: int| 0 <= k < ls.len() implies !is_commit_line(
                    #[trigger] ls[k],
                ) by {
                    if k > 0 {
                        assert(ls[k] == later[k - 1]);
                    }
                }
            }
            if forall|k: int| 0 <= k < ls.len() ==> !is_commit_line(#[trigger] ls[k]) {
                assert forall|k: int| 0 <= k < later.len() implies !is_commit_line(
                    #[trigger] later[k],
                ) by {
                    assert(later[k] == ls[k + 1]);
                }
            }
        }
    }
}

} // verus!
