//! Plain substring removal: every occurrence of a fixed pattern is removed,
//! scanning left to right. This is what strips the italic tags and deletes
//! the right-to-left embedding mark.
use vstd::prelude::*;

verus! {

/// Whether the pattern `p` occurs in `s` starting at index `i`.
pub open spec fn has_match_at(s: Seq<char>, p: Seq<char>, i: int) -> bool {
    0 <= i && i + p.len() <= s.len() && s.subrange(i, i + p.len() as int) == p
}

/// Whether the pattern `p` occurs anywhere in `s`.
pub open spec fn contains_pat(s: Seq<char>, p: Seq<char>) -> bool {
    exists|i: int| has_match_at(s, p, i)
}

/// `s` with every occurrence of `p` removed, scanning from the left: at a
/// match the pattern is skipped and scanning resumes after it, so matches
/// never overlap. A new occurrence formed out of the surroundings of a
/// removed one is not removed.
pub open spec fn remove_pat(s: Seq<char>, p: Seq<char>) -> Seq<char>
    decreases s.len(),
{
    if s.len() == 0 || p.len() == 0 {
        s
    } else if p.len() <= s.len() && s.subrange(0, p.len() as int) == p {
        remove_pat(s.subrange(p.len() as int, s.len() as int), p)
    } else {
        seq![s[0]] + remove_pat(s.subrange(1, s.len() as int), p)
    }
}

/// Whether `p` occurs in `v` at index `i`, decided by comparing characters.
fn matches_at(v: &Vec<char>, p: &Vec<char>, i: usize) -> (b: bool)
    requires
        i <= v.len(),
    ensures
        b == has_match_at(v@, p@, i as int),
{
    if p.len() > v.len() - i {
        proof {
            assert(!has_match_at(v@, p@, i as int));
        }
        return false;
    }
    let mut j: usize = 0;
    while j < p.len()
        invariant
            j <= p.len(),
            forall|k: int| 0 <= k < j ==> v@[i + k] == p@[k],
        decreases p.len() - j,
    {
        if v[i + j] != p[j] {
            proof {
                assert(v@.subrange(i as int, i + p@.len() as int)[j as int] != p@[j as int]);
            }
            return false;
        }
        j += 1;
    }
    proof {
        assert(v@.subrange(i as int, i + p@.len() as int) =~= p@);
    }
    true
}

/// Removes every occurrence of the pattern `p` from `v`, scanning left to
/// right.
pub fn remove_pattern(v: &Vec<char>, p: &Vec<char>) -> (r: Vec<char>)
    requires
        p@.len() > 0,
    ensures
        r@ == remove_pat(v@, p@),
{
    let mut r: Vec<char> = Vec::new();
    let mut i: usize = 0;
    proof {
        assert(v@.skip(0) =~= v@);
        assert(r@ + remove_pat(v@, p@) =~= remove_pat(v@, p@));
    }
    while i < v.len()
        invariant
            i <= v.len(),
            remove_pat(v@, p@) == r@ + remove_pat(v@.skip(i as int), p@),
        decreases v.len() - i,
    {
        let ghost pre = v@.skip(i as int);
        if matches_at(v, p, i) {
            proof {
                assert(pre.subrange(0, p@.len() as int) =~= v@.subrange(
                    i as int,
                    i + p@.len() as int,
                ));
                assert(pre.subrange(p@.len() as int, pre.len() as int) =~= v@.skip(
                    i + p@.len() as int,
                ));
                assert(remove_pat(pre, p@) == remove_pat(v@.skip(i + p@.len() as int), p@));
            }
            i += p.len();
        } else {
            proof {
                if p@.len() <= pre.len() {
                    assert(pre.subrange(0, p@.len() as int) =~= v@.subrange(
                        i as int,
                        i + p@.len() as int,
                    ));
                    assert(pre.subrange(0, p@.len() as int) != p@);
                }
                assert(pre.subrange(1, pre.len() as int) =~= v@.skip(i as int + 1));
                assert(remove_pat(pre, p@) == seq![v@[i as int]] + remove_pat(
                    v@.skip(i as int + 1),
                    p@,
                ));
            }
            r.push(v[i]);
            proof {
                assert(r@ + remove_pat(v@.skip(i as int + 1), p@) =~= (r@.drop_last() + (
                seq![v@[i as int]] + remove_pat(v@.skip(i as int + 1), p@))));
            }
            i += 1;
        }
    }
    proof {
        assert(v@.skip(v@.len() as int) =~= Seq::<char>::empty());
        assert(r@ + remove_pat(v@.skip(v@.len() as int), p@) =~= r@);
    }
    r
}

} // verus!
