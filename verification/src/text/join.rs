//! Joining parts with a separator.

use crate::text::texts;
use vstd::prelude::*;
use vstd::string::*;

verus! {

/// The parts in order, with `sep` between each two neighbours.
pub open spec fn join(parts: Seq<Seq<char>>, sep: Seq<char>) -> Seq<char>
    decreases parts.len(),
{
    if parts.len() == 0 {
        Seq::empty()
    } else if parts.len() == 1 {
        parts[0]
    } else {
        parts[0] + sep + join(parts.skip(1), sep)
    }
}

/// The strings in order, with `sep` between each two neighbours.
pub fn join_strings(parts: &Vec<String>, sep: &str) -> (r: String)
    ensures
        r@ == join(texts(parts@), sep@),
{
    let mut r = String::new();
    let mut i: usize = 0;
    while i < parts.len()
        invariant
            i <= parts.len(),
            r@ == join(texts(parts@).take(i as int), sep@),
        decreases parts.len() - i,
    {
        proof {
            let done = texts(parts@).take(i as int);
            lemma_join_push(done, sep@, parts@[i as int]@);
            assert(done.push(parts@[i as int]@) =~= texts(parts@).take(i + 1));
        }
        if i > 0 {
            r.append(sep);
        }
        r.append(parts[i].as_str());
        i += 1;
    }
    proof {
        assert(texts(parts@).take(parts.len() as int) =~= texts(parts@));
    }
    r
}

/// Joining one more part appends the separator and the part.
pub proof fn lemma_join_push(parts: Seq<Seq<char>>, sep: Seq<char>, last: Seq<char>)
    ensures
        join(parts.push(last), sep) == if parts.len() == 0 {
            last
        } else {
            join(parts, sep) + sep + last
        },
    decreases parts.len(),
{
    let all = parts.push(last);
    if parts.len() == 0 {
    } else if parts.len() == 1 {
        assert(all.skip(1) =~= seq![last]);
        assert(join(all.skip(1), sep) == last);
        assert(join(all, sep) == all[0] + sep + join(all.skip(1), sep));
    } else {
        assert(all.skip(1) =~= parts.skip(1).push(last));
        lemma_join_push(parts.skip(1), sep, last);
        assert(all[0] == parts[0]);
        assert(join(all, sep) =~= join(parts, sep) + sep + last);
    }
}

/// Joining parts of which the last is itself a joined list is joining all
/// the items.
pub proof fn lemma_join_nested(a: Seq<Seq<char>>, b: Seq<Seq<char>>, sep: Seq<char>)
    requires
        a.len() > 0,
        b.len() > 0,
    ensures
        join(a.push(join(b, sep)), sep) == join(a + b, sep),
    decreases b.len(),
{
    if b.len() == 1 {
        assert(a.push(b[0]) =~= a + b);
    } else {
        let head = b.drop_last();
        let x = b.last();
        assert(b =~= head.push(x));
        lemma_join_push(head, sep, x);
        lemma_join_nested(a, head, sep);
        lemma_join_push(a, sep, join(head, sep));
        lemma_join_push(a, sep, join(b, sep));
        assert(a + b =~= (a + head).push(x));
        lemma_join_push(a + head, sep, x);
        assert(join(a, sep) + sep + (join(head, sep) + sep + x) =~= join(a, sep) + sep + join(
            head,
            sep,
        ) + sep + x);
    }
}

} // verus!
