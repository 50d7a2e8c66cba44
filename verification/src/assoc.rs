//! Sorted association lists keyed by `u64`.
//!
//! Both vote buffers of the counter map a voter id to its latest vote and
//! must be enumerable in a deterministic key order, so they are kept as
//! vectors of pairs whose keys strictly increase.  The spec functions below
//! give the mathematical reading of such a list: membership (`assoc_lookup`)
//! and replace-or-insert (`assoc_insert`), both over the view of the stored
//! values.

use vstd::prelude::*;

verus! {

/// The keys of `s` are strictly increasing (hence unique).
pub open spec fn keys_sorted<V>(s: Seq<(u64, V)>) -> bool {
    forall|i: int, j: int| 0 <= i < j < s.len() ==> s[i].0 < s[j].0
}

/// The value stored under `k`, scanning from the front.
pub open spec fn assoc_lookup<V>(s: Seq<(u64, V)>, k: u64) -> Option<V>
    decreases s.len(),
{
    if s.len() == 0 {
        None
    } else if s[0].0 == k {
        Some(s[0].1)
    } else {
        assoc_lookup(s.drop_first(), k)
    }
}

/// `s` with `v` stored under `k`: an entry with key `k` is replaced,
/// otherwise the pair is placed before the first larger key.
pub open spec fn assoc_insert<V>(s: Seq<(u64, V)>, k: u64, v: V) -> Seq<(u64, V)>
    decreases s.len(),
{
    if s.len() == 0 {
        seq![(k, v)]
    } else if s[0].0 < k {
        seq![s[0]] + assoc_insert(s.drop_first(), k, v)
    } else if s[0].0 == k {
        seq![(k, v)] + s.drop_first()
    } else {
        seq![(k, v)] + s
    }
}

/// The pairs of `s`, each value replaced by its view.
pub open spec fn view_pairs<V: View>(s: Seq<(u64, V)>) -> Seq<(u64, V::V)> {
    s.map_values(|p: (u64, V)| (p.0, p.1@))
}

/// Looking up the key just inserted finds the new value.
pub proof fn lemma_insert_lookup_same<V>(s: Seq<(u64, V)>, k: u64, v: V)
    ensures
        assoc_lookup(assoc_insert(s, k, v), k) == Some(v),
    decreases s.len(),
{
    if s.len() == 0 {
    } else if s[0].0 < k {
        lemma_insert_lookup_same(s.drop_first(), k, v);
        assert((seq![s[0]] + assoc_insert(s.drop_first(), k, v)).drop_first()
            =~= assoc_insert(s.drop_first(), k, v));
    } else {
    }
}

/// Inserting under `k` leaves every other key's entry as it was.
pub proof fn lemma_insert_lookup_other<V>(s: Seq<(u64, V)>, k: u64, v: V, k2: u64)
    requires
        k2 != k,
    ensures
        assoc_lookup(assoc_insert(s, k, v), k2) == assoc_lookup(s, k2),
    decreases s.len(),
{
    let r = assoc_insert(s, k, v);
    if s.len() == 0 {
        assert(r == seq![(k, v)]);
        assert(r[0].0 == k);
        assert(r.drop_first() =~= Seq::<(u64, V)>::empty());
        assert(assoc_lookup(r, k2) == assoc_lookup(r.drop_first(), k2));
    } else if s[0].0 < k {
        lemma_insert_lookup_other(s.drop_first(), k, v, k2);
        assert(r == seq![s[0]] + assoc_insert(s.drop_first(), k, v));
        assert(r[0] == s[0]);
        assert(r.drop_first() =~= assoc_insert(s.drop_first(), k, v));
        if s[0].0 == k2 {
            assert(assoc_lookup(r, k2) == Some(s[0].1));
            assert(assoc_lookup(s, k2) == Some(s[0].1));
        } else {
            assert(assoc_lookup(r, k2) == assoc_lookup(r.drop_first(), k2));
            assert(assoc_lookup(s, k2) == assoc_lookup(s.drop_first(), k2));
        }
    } else if s[0].0 == k {
        assert(r == seq![(k, v)] + s.drop_first());
        assert(r[0].0 == k);
        assert(r.drop_first() =~= s.drop_first());
        assert(assoc_lookup(r, k2) == assoc_lookup(s.drop_first(), k2));
        assert(assoc_lookup(s, k2) == assoc_lookup(s.drop_first(), k2));
    } else {
        assert(r == seq![(k, v)] + s);
        assert(r[0].0 == k);
        assert(r.drop_first() =~= s);
        assert(assoc_lookup(r, k2) == assoc_lookup(s, k2));
    }
}

/// Every entry of the inserted list is the new pair or an entry of the old one.
pub proof fn lemma_insert_elems<V>(s: Seq<(u64, V)>, k: u64, v: V)
    ensures
        forall|i: int|
            0 <= i < assoc_insert(s, k, v).len() ==> #[trigger] assoc_insert(s, k, v)[i] == (k, v)
                || s.contains(assoc_insert(s, k, v)[i]),
    decreases s.len(),
{
    if s.len() == 0 {
    } else if s[0].0 < k {
        lemma_insert_elems(s.drop_first(), k, v);
        let r = seq![s[0]] + assoc_insert(s.drop_first(), k, v);
        assert forall|i: int| 0 <= i < r.len() implies #[trigger] r[i] == (k, v) || s.contains(
            r[i],
        ) by {
            if i == 0 {
                assert(s.contains(s[0]));
            } else {
                let ri = assoc_insert(s.drop_first(), k, v)[i - 1];
                assert(r[i] == ri);
                if ri != (k, v) {
                    let j = choose|j: int|
                        0 <= j < s.drop_first().len() && s.drop_first()[j] == ri;
                    assert(s[j + 1] == ri);
                }
            }
        }
    } else if s[0].0 == k {
        let r = seq![(k, v)] + s.drop_first();
        assert forall|i: int| 0 <= i < r.len() implies #[trigger] r[i] == (k, v) || s.contains(
            r[i],
        ) by {
            if i > 0 {
                assert(s[i] == r[i]);
            }
        }
    } else {
        let r = seq![(k, v)] + s;
        assert forall|i: int| 0 <= i < r.len() implies #[trigger] r[i] == (k, v) || s.contains(
            r[i],
        ) by {
            if i > 0 {
                assert(s[i - 1] == r[i]);
            }
        }
    }
}

/// A scan that stops at index `i` on key `k`, having passed it nowhere
/// earlier, has found the stored entry.
proof fn lemma_lookup_at<V>(s: Seq<(u64, V)>, k: u64, i: int)
    requires
        0 <= i < s.len(),
        s[i].0 == k,
        forall|j: int| 0 <= j < i ==> s[j].0 != k,
    ensures
        assoc_lookup(s, k) == Some(s[i].1),
    decreases i,
{
    if i > 0 {
        lemma_lookup_at(s.drop_first(), k, i - 1);
    }
}

/// A scan that finds `k` nowhere proves the key unbound.
proof fn lemma_lookup_none<V>(s: Seq<(u64, V)>, k: u64)
    requires
        forall|j: int| 0 <= j < s.len() ==> s[j].0 != k,
    ensures
        assoc_lookup(s, k) is None,
    decreases s.len(),
{
    if s.len() > 0 {
        lemma_lookup_none(s.drop_first(), k);
    }
}

/// `assoc_insert` in terms of the splice position `i` that a left-to-right
/// scan finds: the first index whose key is not below `k`.
proof fn lemma_insert_at<V>(s: Seq<(u64, V)>, k: u64, v: V, i: int)
    requires
        0 <= i <= s.len(),
        forall|j: int| 0 <= j < i ==> s[j].0 < k,
        i < s.len() ==> s[i].0 >= k,
    ensures
        assoc_insert(s, k, v) == if i < s.len() && s[i].0 == k {
            s.update(i, (k, v))
        } else {
            (s.take(i) + seq![(k, v)] + s.skip(i))
        },
    decreases i,
{
    if i == 0 {
        if s.len() == 0 {
            assert(assoc_insert(s, k, v) =~= s.take(0) + seq![(k, v)] + s.skip(0));
        } else if s[0].0 == k {
            assert(seq![(k, v)] + s.drop_first() =~= s.update(0, (k, v)));
        } else {
            assert(seq![(k, v)] + s =~= s.take(0) + seq![(k, v)] + s.skip(0));
        }
    } else {
        let d = s.drop_first();
        lemma_insert_at(d, k, v, i - 1);
        assert(s[0].0 < k);
        if i < s.len() && s[i].0 == k {
            assert(d[i - 1].0 == k);
            assert(seq![s[0]] + d.update(i - 1, (k, v)) =~= s.update(i, (k, v)));
        } else {
            assert(seq![s[0]] + (d.take(i - 1) + seq![(k, v)] + d.skip(i - 1)) =~= s.take(i)
                + seq![(k, v)] + s.skip(i));
        }
    }
}

/// Index of the entry with key `k`, if one is stored.  Works on any list;
/// on an unsorted one it reports the first occurrence, which is what
/// `assoc_lookup` means.
pub fn assoc_index<V: View>(s: &Vec<(u64, V)>, k: u64) -> (r: Option<usize>)
    ensures
        match r {
            Some(i) => i < s@.len() && s@[i as int].0 == k && assoc_lookup(view_pairs(s@), k)
                == Some(s@[i as int].1@),
            None => assoc_lookup(view_pairs(s@), k) is None,
        },
{
    let ghost vp = view_pairs(s@);
    let n = s.len();
    let mut i: usize = 0;
    while i < n
        invariant
            n == s@.len(),
            vp == view_pairs(s@),
            i <= n,
            forall|j: int| 0 <= j < i ==> s@[j].0 != k,
        decreases n - i,
    {
        if s[i].0 == k {
            proof {
                assert(vp[i as int].0 == s@[i as int].0 && vp[i as int].1 == s@[i as int].1@);
                assert(forall|j: int| 0 <= j < i ==> vp[j].0 == s@[j].0);
                lemma_lookup_at(vp, k, i as int);
            }
            return Some(i);
        }
        i += 1;
    }
    proof {
        assert(forall|j: int| 0 <= j < vp.len() ==> vp[j].0 == s@[j].0);
        lemma_lookup_none(vp, k);
    }
    None
}

/// Stores `v` under `k`, keeping the keys sorted.
pub fn assoc_set<V: View>(s: &mut Vec<(u64, V)>, k: u64, v: V)
    requires
        keys_sorted(view_pairs(old(s)@)),
    ensures
        view_pairs(final(s)@) == assoc_insert(view_pairs(old(s)@), k, v@),
        keys_sorted(view_pairs(final(s)@)),
{
    let ghost vp = view_pairs(s@);
    proof {
        assert(forall|j: int| 0 <= j < vp.len() ==> vp[j].0 == s@[j].0);
    }
    let n = s.len();
    let mut i: usize = 0;
    while i < n && s[i].0 < k
        invariant
            n == s@.len(),
            vp == view_pairs(s@),
            i <= n,
            forall|j: int| 0 <= j < i ==> s@[j].0 < k,
        decreases n - i,
    {
        i += 1;
    }
    proof {
        lemma_insert_at(vp, k, v@, i as int);
    }
    if i < s.len() && s[i].0 == k {
        s.remove(i);
        s.insert(i, (k, v));
        proof {
            let newvp = view_pairs(s@);
            assert(newvp =~= vp.update(i as int, (k, v@)));
            assert(keys_sorted(newvp)) by {
                assert(forall|j: int| 0 <= j < newvp.len() ==> j != i ==> newvp[j] == vp[j]);
            }
        }
    } else {
        s.insert(i, (k, v));
        proof {
            let newvp = view_pairs(s@);
            assert(newvp =~= vp.take(i as int) + seq![(k, v@)] + vp.skip(i as int)) by {
                assert(s@ == old(s)@.insert(i as int, (k, v)));
                assert(forall|j: int|
                    0 <= j < s@.len() ==> #[trigger] newvp[j] == (s@[j].0, s@[j].1@));
            }
            assert(keys_sorted(newvp)) by {
                assert(forall|j: int| 0 <= j < i ==> #[trigger] newvp[j] == vp[j]);
                assert(newvp[i as int] == (k, v@));
                assert(forall|j: int|
                    i < j < newvp.len() ==> #[trigger] newvp[j] == vp[j - 1]);
                let ii = i as int;
                assert forall|a: int, b: int| 0 <= a < b < newvp.len() implies newvp[a].0
                    < newvp[b].0 by {
                    if b < ii {
                        assert(vp[a].0 < vp[b].0);
                    } else if a < ii && b == ii {
                        assert(vp[a].0 < k);
                    } else if a < ii && b > ii {
                        assert(vp[a].0 < k);
                        assert(vp[b - 1].0 >= k) by {
                            if b - 1 > ii {
                                assert(vp[ii].0 < vp[b - 1].0);
                            }
                        }
                    } else if a == ii {
                        assert(vp[b - 1].0 >= k) by {
                            if b - 1 > ii {
                                assert(vp[ii].0 < vp[b - 1].0);
                            }
                        }
                        assert(vp[b - 1].0 != k);
                    } else {
                        assert(vp[a - 1].0 < vp[b - 1].0);
                    }
                }
            }
        }
    }
}

} // verus!
