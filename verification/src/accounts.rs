//! Shared helpers for identity sets: membership of a string in a vector of
//! identities, and how vector edits act on the set of identity views.

use vstd::prelude::*;

verus! {

/// Whether every view of a string in the vector differs from every other.
pub open spec fn distinct_views(v: Seq<String>) -> bool {
    forall|i: int, j: int| 0 <= i < j < v.len() ==> v[i]@ != v[j]@
}

/// Whether some string in the vector reads as this one.
pub fn contains_string(v: &Vec<String>, account_id: &String) -> (r: bool)
    ensures
        r == v@.map_values(|s: String| s@).contains(account_id@),
{
    let n = v.len();
    let mut i: usize = 0;
    while i < n
        invariant
            n == v@.len(),
            0 <= i <= n,
            forall|k: int| 0 <= k < i ==> v@[k]@ != account_id@,
        decreases n - i,
    {
        if v[i].eq(account_id) {
            proof {
                assert(v@.map_values(|s: String| s@)[i as int] == account_id@);
            }
            return true;
        }
        i = i + 1;
    }
    proof {
        let m = v@.map_values(|s: String| s@);
        assert(forall|k: int| 0 <= k < m.len() ==> m[k] != account_id@);
    }
    false
}

/// Pushing a value onto a sequence inserts it into the sequence's set.
pub proof fn lemma_to_set_push(s: Seq<Seq<char>>, x: Seq<char>)
    ensures
        s.push(x).to_set() =~= s.to_set().insert(x),
{
    assert forall|y: Seq<char>| s.push(x).to_set().contains(y) implies s.to_set().insert(
        x,
    ).contains(y) by {
        let k = choose|k: int| 0 <= k < s.push(x).len() && s.push(x)[k] == y;
        if k < s.len() {
            assert(s[k] == y);
        }
    }
    assert forall|y: Seq<char>| s.to_set().insert(x).contains(y) implies s.push(x).to_set().contains(
        y,
    ) by {
        if y == x {
            assert(s.push(x)[s.len() as int] == y);
        } else {
            let k = choose|k: int| 0 <= k < s.len() && s[k] == y;
            assert(s.push(x)[k] == y);
        }
    }
}

/// Removing the only occurrence of a value from the vector removes it from
/// the sequence's set.
pub proof fn lemma_remove_at_unique(pre: Seq<String>, i: int, x: Seq<char>)
    requires
        0 <= i < pre.len(),
        pre[i]@ == x,
        distinct_views(pre),
    ensures
        pre.remove(i).map_values(|s: String| s@).to_set() =~= pre.map_values(
            |s: String| s@,
        ).to_set().remove(x),
        distinct_views(pre.remove(i)),
{
    let post = pre.remove(i);
    let m_pre = pre.map_values(|s: String| s@);
    let m_post = post.map_values(|s: String| s@);
    assert(forall|k: int| 0 <= k < i ==> post[k] == pre[k]);
    assert(forall|k: int| i <= k < post.len() ==> post[k] == pre[k + 1]);
    assert forall|y: Seq<char>| m_post.to_set().contains(y) implies m_pre.to_set().remove(
        x,
    ).contains(y) by {
        let k = choose|k: int| 0 <= k < m_post.len() && m_post[k] == y;
        if k < i {
            assert(m_pre[k] == y);
            assert(y != x);
        } else {
            assert(m_pre[k + 1] == y);
            assert(y != x);
        }
    }
    assert forall|y: Seq<char>| m_pre.to_set().remove(x).contains(y) implies m_post.to_set().contains(
        y,
    ) by {
        let k = choose|k: int| 0 <= k < m_pre.len() && m_pre[k] == y;
        if k < i {
            assert(m_post[k] == y);
        } else if k > i {
            assert(m_post[k - 1] == y);
        }
    }
}

} // verus!
