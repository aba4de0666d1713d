//! Key-value vectors with unique keys: the representation behind the
//! ledger's balance, NFT and account maps.

use vstd::prelude::*;

verus! {

/// Whether no key occurs twice.
pub open spec fn keys_unique<V>(s: Seq<(u32, V)>) -> bool {
    forall|i: int, j: int| 0 <= i < j < s.len() ==> (#[trigger] s[i]).0 != (#[trigger] s[j]).0
}

/// The value stored under `k`, if any.
pub open spec fn assoc_find<V>(s: Seq<(u32, V)>, k: u32) -> Option<V>
    decreases s.len(),
{
    if s.len() == 0 {
        None
    } else if s.last().0 == k {
        Some(s.last().1)
    } else {
        assoc_find(s.drop_last(), k)
    }
}

/// An entry's key finds that entry.
pub proof fn lemma_assoc_find_at<V>(s: Seq<(u32, V)>, i: int)
    requires
        keys_unique(s),
        0 <= i < s.len(),
    ensures
        assoc_find(s, s[i].0) == Some(s[i].1),
    decreases s.len(),
{
    if i + 1 == s.len() {
    } else {
        assert(s.last().0 != s[i].0);
        assert(s.drop_last()[i] == s[i]);
        lemma_assoc_find_at(s.drop_last(), i);
    }
}

/// A key under which nothing is stored finds nothing.
pub proof fn lemma_assoc_find_absent<V>(s: Seq<(u32, V)>, k: u32)
    requires
        forall|i: int| 0 <= i < s.len() ==> (#[trigger] s[i]).0 != k,
    ensures
        assoc_find(s, k) == None::<V>,
    decreases s.len(),
{
    if s.len() > 0 {
        assert(s[s.len() - 1].0 != k);
        assert(forall|i: int|
            0 <= i < s.drop_last().len() ==> (#[trigger] s.drop_last()[i]).0 != k);
        lemma_assoc_find_absent(s.drop_last(), k);
    }
}

/// Replacing the value at one entry changes only that entry's key.
pub proof fn lemma_assoc_find_update<V>(s: Seq<(u32, V)>, i: int, v: V, k: u32)
    requires
        keys_unique(s),
        0 <= i < s.len(),
    ensures
        keys_unique(s.update(i, (s[i].0, v))),
        assoc_find(s.update(i, (s[i].0, v)), k) == if k == s[i].0 {
            Some(v)
        } else {
            assoc_find(s, k)
        },
    decreases s.len(),
{
    let t = s.update(i, (s[i].0, v));
    assert(keys_unique(t));
    if k == s[i].0 {
        lemma_assoc_find_at(t, i);
    } else {
        if i + 1 == s.len() {
            assert(t.drop_last() =~= s.drop_last());
        } else {
            assert(t.last() == s.last());
            assert(t.drop_last() =~= s.drop_last().update(i, (s[i].0, v)));
            assert(s.drop_last()[i] == s[i]);
            lemma_assoc_find_update(s.drop_last(), i, v, k);
        }
    }
}

/// Appending an entry under a fresh key leaves other keys unchanged.
pub proof fn lemma_assoc_find_push<V>(s: Seq<(u32, V)>, k0: u32, v: V, k: u32)
    requires
        keys_unique(s),
        forall|i: int| 0 <= i < s.len() ==> (#[trigger] s[i]).0 != k0,
    ensures
        keys_unique(s.push((k0, v))),
        assoc_find(s.push((k0, v)), k) == if k == k0 {
            Some(v)
        } else {
            assoc_find(s, k)
        },
{
    let t = s.push((k0, v));
    assert forall|i: int, j: int| 0 <= i < j < t.len() implies (#[trigger] t[i]).0 != (
    #[trigger] t[j]).0 by {
        if j < s.len() {
            assert(t[i] == s[i] && t[j] == s[j]);
        } else {
            assert(t[i] == s[i] && t[j] == (k0, v));
        }
    }
    assert(t.last() == (k0, v));
    assert(t.drop_last() =~= s);
}

/// Removing the entry at `i` by swapping the last entry into its place
/// removes exactly that entry's key.
pub proof fn lemma_assoc_find_swap_remove<V>(s: Seq<(u32, V)>, i: int, k: u32)
    requires
        keys_unique(s),
        0 <= i < s.len(),
    ensures
        keys_unique(s.update(i, s.last()).drop_last()),
        assoc_find(s.update(i, s.last()).drop_last(), k) == if k == s[i].0 {
            None::<V>
        } else {
            assoc_find(s, k)
        },
{
    let t = s.update(i, s.last()).drop_last();
    assert forall|a: int, b: int| 0 <= a < b < t.len() implies (#[trigger] t[a]).0 != (
    #[trigger] t[b]).0 by {
        let sa = if a == i {
            s.len() - 1
        } else {
            a
        };
        let sb = if b == i {
            s.len() - 1
        } else {
            b
        };
        assert(t[a] == s[sa] && t[b] == s[sb]);
    }
    if k == s[i].0 {
        assert forall|a: int| 0 <= a < t.len() implies (#[trigger] t[a]).0 != k by {
            if a == i {
                assert(t[a] == s[s.len() - 1]);
            } else {
                assert(t[a] == s[a]);
            }
        }
        lemma_assoc_find_absent(t, k);
    } else {
        if exists|a: int| 0 <= a < s.len() && (#[trigger] s[a]).0 == k {
            let a = choose|a: int| 0 <= a < s.len() && (#[trigger] s[a]).0 == k;
            lemma_assoc_find_at(s, a);
            if a == s.len() - 1 {
                if i == s.len() - 1 {
                    assert(t =~= s.drop_last());
                    lemma_assoc_find_at(s, a);
                    assert(false);
                } else {
                    assert(t[i] == s[a]);
                    lemma_assoc_find_at(t, i);
                }
            } else {
                assert(t[a] == s[a]);
                lemma_assoc_find_at(t, a);
            }
        } else {
            assert(forall|a: int| 0 <= a < s.len() ==> (#[trigger] s[a]).0 != k);
            lemma_assoc_find_absent(s, k);
            assert forall|a: int| 0 <= a < t.len() implies (#[trigger] t[a]).0 != k by {
                if a == i {
                    assert(t[a] == s[s.len() - 1]);
                } else {
                    assert(t[a] == s[a]);
                }
            }
            lemma_assoc_find_absent(t, k);
        }
    }
}

/// A key that finds nothing is stored nowhere.
pub proof fn lemma_assoc_find_absent_converse<V>(s: Seq<(u32, V)>, k: u32)
    requires
        assoc_find(s, k) is None,
    ensures
        forall|i: int| 0 <= i < s.len() ==> (#[trigger] s[i]).0 != k,
    decreases s.len(),
{
    if s.len() > 0 {
        lemma_assoc_find_absent_converse(s.drop_last(), k);
        assert forall|i: int| 0 <= i < s.len() implies (#[trigger] s[i]).0 != k by {
            if i < s.len() - 1 {
                assert(s.drop_last()[i] == s[i]);
            }
        }
    }
}

/// A found value is stored at some index.
pub proof fn lemma_assoc_find_some_index<V>(s: Seq<(u32, V)>, k: u32)
    requires
        assoc_find(s, k) is Some,
    ensures
        exists|i: int|
            0 <= i < s.len() && (#[trigger] s[i]).0 == k && s[i].1 == assoc_find(s, k)->0,
    decreases s.len(),
{
    if s.last().0 == k {
        assert(s[s.len() - 1].0 == k);
    } else {
        lemma_assoc_find_some_index(s.drop_last(), k);
        let i = choose|i: int|
            0 <= i < s.drop_last().len() && (#[trigger] s.drop_last()[i]).0 == k
                && s.drop_last()[i].1 == assoc_find(s.drop_last(), k)->0;
        assert(s[i] == s.drop_last()[i]);
    }
}

/// Index of the entry holding `k`, scanned from the front.
pub fn assoc_index_of<V>(entries: &Vec<(u32, V)>, k: u32) -> (r: Option<usize>)
    requires
        keys_unique(entries@),
    ensures
        match r {
            Some(i) => i < entries@.len() && entries@[i as int].0 == k,
            None => forall|i: int| 0 <= i < entries@.len() ==> (#[trigger] entries@[i]).0 != k,
        },
{
    let n = entries.len();
    let mut i: usize = 0;
    while i < n
        invariant
            n == entries@.len(),
            i <= n,
            forall|j: int| 0 <= j < i ==> (#[trigger] entries@[j]).0 != k,
        decreases n - i,
    {
        if entries[i].0 == k {
            return Some(i);
        }
        i += 1;
    }
    None
}

} // verus!
