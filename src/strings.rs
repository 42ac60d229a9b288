//! Sequences of strings seen as sequences of character sequences.

use vstd::prelude::*;

verus! {

pub open spec fn views(v: Seq<String>) -> Seq<Seq<char>> {
    v.map_values(|s: String| s@)
}

/// Whether `s` is one of the strings of `v`.
pub fn contains_str(v: &Vec<String>, s: &String) -> (r: bool)
    ensures
        r == views(v@).contains(s@),
{
    let mut i: usize = 0;
    while i < v.len()
        invariant
            i <= v.len(),
            forall|j: int| 0 <= j < i ==> v@[j]@ != s@,
        decreases v.len() - i,
    {
        if v[i] == *s {
            assert(views(v@)[i as int] == s@);
            return true;
        }
        i += 1;
    }
    assert(!views(v@).contains(s@)) by {
        if views(v@).contains(s@) {
            let k = choose|k: int| 0 <= k < views(v@).len() && views(v@)[k] == s@;
            assert(v@[k]@ == s@);
        }
    }
    false
}

/// Appends `s` to `v` unless `v` already holds it; says whether it was added.
pub fn push_new(v: &mut Vec<String>, s: String) -> (added: bool)
    ensures
        added == !views(old(v)@).contains(s@),
        views(final(v)@) == if added {
            views(old(v)@).push(s@)
        } else {
            views(old(v)@)
        },
{
    if contains_str(v, &s) {
        false
    } else {
        v.push(s);
        assert(views(v@) =~= views(old(v)@).push(s@));
        true
    }
}

} // verus!
