//! Prefixes, and commit identifiers that abbreviate one another.

use vstd::prelude::*;

verus! {

/// Whether `s` begins with `p`.
pub open spec fn starts_with(s: Seq<char>, p: Seq<char>) -> bool {
    p.len() <= s.len() && s.take(p.len() as int) == p
}

/// Whether `v` begins with `p`.
pub fn begins_with(v: &Vec<char>, p: &Vec<char>) -> (b: bool)
    ensures
        b == starts_with(v@, p@),
{
    if p.len() > v.len() {
        return false;
    }
    let mut i: usize = 0;
    while i < p.len()
        invariant
            i <= p.len() <= v.len(),
            v@.take(i as int) == p@.take(i as int),
        decreases p.len() - i,
    {
        if v[i] != p[i] {
            proof {
                let k = p.len() as int;
                if v@.take(k) == p@ {
                    assert(v@.take(k)[i as int] == p@[i as int]);
                }
            }
            return false;
        }
        proof {
            assert(v@.take(i + 1) =~= v@.take(i as int).push(v@[i as int]));
            assert(p@.take(i + 1) =~= p@.take(i as int).push(p@[i as int]));
        }
        i += 1;
    }
    proof {
        assert(p@.take(p.len() as int) =~= p@);
    }
    true
}

/// Whether one of two commit identifiers abbreviates the other: either is a
/// prefix of the other.
pub open spec fn hash_matches(a: Seq<char>, b: Seq<char>) -> bool {
    starts_with(a, b) || starts_with(b, a)
}

/// Whether one of `a` and `b` is a prefix of the other.
pub fn hashes_match(a: &Vec<char>, b: &Vec<char>) -> (r: bool)
    ensures
        r == hash_matches(a@, b@),
{
    begins_with(a, b) || begins_with(b, a)
}

} // verus!
