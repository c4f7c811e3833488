//! Association lists: sequences of key/value pairs read as finite maps.
//! The registries, playlists and sync groups of the library keep their
//! entries in vectors with no key twice; these definitions and lemmas relate
//! such a vector to the map it stands for.
use vstd::prelude::*;

verus! {

/// The map an association list stands for; a later pair wins over an
/// earlier one with the same key.
pub open spec fn assoc_map<K, V>(s: Seq<(K, V)>) -> Map<K, V>
    decreases s.len(),
{
    if s.len() == 0 {
        Map::empty()
    } else {
        assoc_map(s.drop_last()).insert(s.last().0, s.last().1)
    }
}

/// No key occurs twice.
pub open spec fn distinct_keys<K, V>(s: Seq<(K, V)>) -> bool {
    forall|i: int, j: int|
        0 <= i < s.len() && 0 <= j < s.len() && i != j ==> #[trigger] s[i].0 != #[trigger] s[j].0
}

/// Without repeated keys, the map holds exactly the keys of the list, each
/// with the value stored beside it.
pub proof fn lemma_assoc_map<K, V>(s: Seq<(K, V)>)
    requires
        distinct_keys(s),
    ensures
        forall|k: K|
            #[trigger] assoc_map(s).contains_key(k) <==> exists|i: int| 0 <= i < s.len() && s[i].0 == k,
        forall|i: int| 0 <= i < s.len() ==> #[trigger] assoc_map(s)[s[i].0] == s[i].1,
        assoc_map(s).dom().finite(),
    decreases s.len(),
{
    if s.len() > 0 {
        let t = s.drop_last();
        assert(distinct_keys(t)) by {
            assert forall|i: int, j: int|
                0 <= i < t.len() && 0 <= j < t.len() && i != j implies #[trigger] t[i].0 != #[trigger] t[j].0 by {
                assert(t[i] == s[i]);
                assert(t[j] == s[j]);
            }
        }
        lemma_assoc_map(t);
        let n = s.len() - 1;
        assert forall|k: K|
            #[trigger] assoc_map(s).contains_key(k) <==> exists|i: int| 0 <= i < s.len() && s[i].0 == k by {
            if assoc_map(s).contains_key(k) {
                if k == s.last().0 {
                    assert(s[n].0 == k);
                } else {
                    assert(assoc_map(t).contains_key(k));
                    let i = choose|i: int| 0 <= i < t.len() && t[i].0 == k;
                    assert(s[i].0 == k);
                }
            }
            if exists|i: int| 0 <= i < s.len() && s[i].0 == k {
                let i = choose|i: int| 0 <= i < s.len() && s[i].0 == k;
                if i < n {
                    assert(t[i].0 == k);
                    assert(assoc_map(t).contains_key(k));
                }
            }
        }
        assert forall|i: int| 0 <= i < s.len() implies #[trigger] assoc_map(s)[s[i].0] == s[i].1 by {
            if i < n {
                assert(t[i] == s[i]);
                assert(s[i].0 != s[n].0);
            }
        }
    }
}

/// Changing the value stored at a key's position is inserting into the map.
pub proof fn lemma_assoc_update<K, V>(s: Seq<(K, V)>, i: int, v: V)
    requires
        distinct_keys(s),
        0 <= i < s.len(),
    ensures
        distinct_keys(s.update(i, (s[i].0, v))),
        assoc_map(s.update(i, (s[i].0, v))) == assoc_map(s).insert(s[i].0, v),
{
    let u = s.update(i, (s[i].0, v));
    assert(distinct_keys(u)) by {
        assert forall|a: int, b: int|
            0 <= a < u.len() && 0 <= b < u.len() && a != b implies #[trigger] u[a].0 != #[trigger] u[b].0 by {
            assert(u[a].0 == s[a].0);
            assert(u[b].0 == s[b].0);
        }
    }
    lemma_assoc_map(s);
    lemma_assoc_map(u);
    let m = assoc_map(s).insert(s[i].0, v);
    assert forall|k: K| #[trigger] assoc_map(u).contains_key(k) <==> m.contains_key(k) by {
        if assoc_map(u).contains_key(k) {
            let j = choose|j: int| 0 <= j < u.len() && u[j].0 == k;
            assert(s[j].0 == k);
        }
        if m.contains_key(k) && k != s[i].0 {
            let j = choose|j: int| 0 <= j < s.len() && s[j].0 == k;
            assert(u[j].0 == k);
        }
        if k == s[i].0 {
            assert(u[i].0 == k);
        }
    }
    assert forall|k: K| #[trigger] assoc_map(u).contains_key(k) implies assoc_map(u)[k] == m[k] by {
        let j = choose|j: int| 0 <= j < u.len() && u[j].0 == k;
        assert(u[j].0 == k);
        assert(assoc_map(u)[u[j].0] == u[j].1);
        if j != i {
            assert(s[j] == u[j]);
            assert(assoc_map(s)[s[j].0] == s[j].1);
        }
    }
    assert(assoc_map(u) =~= m);
}

/// Appending a pair with a new key is inserting into the map.
pub proof fn lemma_assoc_push<K, V>(s: Seq<(K, V)>, k: K, v: V)
    requires
        distinct_keys(s),
        !assoc_map(s).contains_key(k),
    ensures
        distinct_keys(s.push((k, v))),
        assoc_map(s.push((k, v))) == assoc_map(s).insert(k, v),
{
    lemma_assoc_map(s);
    let u = s.push((k, v));
    assert(u.drop_last() =~= s);
    assert(distinct_keys(u)) by {
        assert forall|a: int, b: int|
            0 <= a < u.len() && 0 <= b < u.len() && a != b implies #[trigger] u[a].0 != #[trigger] u[b].0 by {
            if a < s.len() && b < s.len() {
                assert(u[a] == s[a]);
                assert(u[b] == s[b]);
            } else if a < s.len() {
                assert(u[a] == s[a]);
                assert(s[a].0 != k) by {
                    if s[a].0 == k {
                        assert(assoc_map(s).contains_key(k));
                    }
                }
            } else {
                assert(u[b] == s[b]);
                assert(s[b].0 != k) by {
                    if s[b].0 == k {
                        assert(assoc_map(s).contains_key(k));
                    }
                }
            }
        }
    }
}

/// Removing the pairs at `i` keeps the rest of the map.
pub proof fn lemma_assoc_remove<K, V>(s: Seq<(K, V)>, i: int)
    requires
        distinct_keys(s),
        0 <= i < s.len(),
    ensures
        distinct_keys(s.remove(i)),
        assoc_map(s.remove(i)) == assoc_map(s).remove(s[i].0),
{
    let u = s.remove(i);
    assert forall|a: int| 0 <= a < u.len() implies #[trigger] u[a] == (if a < i { s[a] } else { s[a + 1] }) by {}
    assert(distinct_keys(u)) by {
        assert forall|a: int, b: int|
            0 <= a < u.len() && 0 <= b < u.len() && a != b implies #[trigger] u[a].0 != #[trigger] u[b].0 by {
            let sa = if a < i { a } else { a + 1 };
            let sb = if b < i { b } else { b + 1 };
            assert(u[a] == s[sa]);
            assert(u[b] == s[sb]);
        }
    }
    lemma_assoc_map(s);
    lemma_assoc_map(u);
    let m = assoc_map(s).remove(s[i].0);
    assert forall|k: K| #[trigger] assoc_map(u).contains_key(k) <==> m.contains_key(k) by {
        if assoc_map(u).contains_key(k) {
            let j = choose|j: int| 0 <= j < u.len() && u[j].0 == k;
            let sj = if j < i { j } else { j + 1 };
            assert(u[j] == s[sj]);
            assert(s[sj].0 == k);
            assert(sj != i);
            assert(k != s[i].0);
        }
        if m.contains_key(k) {
            let j = choose|j: int| 0 <= j < s.len() && s[j].0 == k;
            assert(j != i);
            let uj = if j < i { j } else { j - 1 };
            assert(u[uj] == s[j]);
        }
    }
    assert forall|k: K| #[trigger] assoc_map(u).contains_key(k) implies assoc_map(u)[k] == m[k] by {
        let j = choose|j: int| 0 <= j < u.len() && u[j].0 == k;
        let sj = if j < i { j } else { j + 1 };
        assert(u[j] == s[sj]);
        assert(assoc_map(u)[u[j].0] == u[j].1);
        assert(assoc_map(s)[s[sj].0] == s[sj].1);
    }
    assert(assoc_map(u) =~= m);
}

/// The entries of `m` that pass `keep`.
pub open spec fn map_filter<K, V>(m: Map<K, V>, keep: spec_fn(K, V) -> bool) -> Map<K, V> {
    Map::new(|k: K| m.contains_key(k) && keep(k, m[k]), |k: K| m[k])
}

/// Every entry of `a` is an entry of `b`.
pub open spec fn submap<K, V>(a: Map<K, V>, b: Map<K, V>) -> bool {
    forall|k: K| #[trigger] a.contains_key(k) ==> b.contains_key(k) && a[k] == b[k]
}

/// What holds while a list is being filtered in place: the list is a
/// submap of the original, no kept entry has gone, and the first `i`
/// entries are kept ones.
pub open spec fn filtering<K, V>(cur: Seq<(K, V)>, i: int, m0: Map<K, V>, keep: spec_fn(K, V) -> bool) -> bool {
    &&& distinct_keys(cur)
    &&& 0 <= i <= cur.len()
    &&& submap(assoc_map(cur), m0)
    &&& forall|k: K| #[trigger] m0.contains_key(k) && keep(k, m0[k]) ==> assoc_map(cur).contains_key(k)
    &&& forall|t: int| 0 <= t < i ==> keep(#[trigger] cur[t].0, cur[t].1)
}

/// Filtering starts from the whole list.
pub proof fn lemma_filtering_start<K, V>(s: Seq<(K, V)>, keep: spec_fn(K, V) -> bool)
    requires
        distinct_keys(s),
    ensures
        filtering(s, 0, assoc_map(s), keep),
{
}

/// Dropping an entry that fails `keep` keeps the filtering invariant.
pub proof fn lemma_filtering_remove<K, V>(cur: Seq<(K, V)>, i: int, m0: Map<K, V>, keep: spec_fn(K, V) -> bool)
    requires
        filtering(cur, i, m0, keep),
        i < cur.len(),
        !keep(cur[i].0, cur[i].1),
    ensures
        filtering(cur.remove(i), i, m0, keep),
{
    lemma_assoc_remove(cur, i);
    lemma_assoc_map(cur);
    let u = cur.remove(i);
    let k0 = cur[i].0;
    assert(assoc_map(cur)[k0] == cur[i].1);
    assert forall|k: K| #[trigger] m0.contains_key(k) && keep(k, m0[k]) implies assoc_map(u).contains_key(k) by {
        assert(assoc_map(cur).contains_key(k));
        if k == k0 {
            assert(m0[k] == cur[i].1);
        }
    }
    assert forall|t: int| 0 <= t < i implies keep(#[trigger] u[t].0, u[t].1) by {
        assert(u[t] == cur[t]);
    }
}

/// Passing over an entry that passes `keep` keeps the filtering invariant.
pub proof fn lemma_filtering_skip<K, V>(cur: Seq<(K, V)>, i: int, m0: Map<K, V>, keep: spec_fn(K, V) -> bool)
    requires
        filtering(cur, i, m0, keep),
        i < cur.len(),
        keep(cur[i].0, cur[i].1),
    ensures
        filtering(cur, i + 1, m0, keep),
{
}

/// Once every entry has been looked at, the list stands for the filtered map.
pub proof fn lemma_filtering_done<K, V>(cur: Seq<(K, V)>, m0: Map<K, V>, keep: spec_fn(K, V) -> bool)
    requires
        filtering(cur, cur.len() as int, m0, keep),
    ensures
        assoc_map(cur) == map_filter(m0, keep),
{
    lemma_assoc_map(cur);
    let f = map_filter(m0, keep);
    assert forall|k: K| #[trigger] assoc_map(cur).contains_key(k) <==> f.contains_key(k) by {
        if assoc_map(cur).contains_key(k) {
            let t = choose|t: int| 0 <= t < cur.len() && cur[t].0 == k;
            assert(keep(cur[t].0, cur[t].1));
            assert(assoc_map(cur)[cur[t].0] == cur[t].1);
        }
    }
    assert(assoc_map(cur) =~= f);
}

/// The position of key `k` in a list keyed by 128-bit identifiers.
pub fn assoc_index<V>(v: &Vec<(u128, V)>, k: u128) -> (r: Option<usize>)
    ensures
        r matches Some(i) ==> i < v@.len() && v@[i as int].0 == k,
        r is None ==> forall|i: int| 0 <= i < v@.len() ==> v@[i].0 != k,
{
    let mut i: usize = 0;
    while i < v.len()
        invariant
            i <= v@.len(),
            forall|j: int| 0 <= j < i ==> v@[j].0 != k,
        decreases v@.len() - i,
    {
        if v[i].0 == k {
            return Some(i);
        }
        i = i + 1;
    }
    None
}

/// The value stored at `k`, as the list's map has it.
pub proof fn lemma_assoc_at<K, V>(s: Seq<(K, V)>, i: int)
    requires
        distinct_keys(s),
        0 <= i < s.len(),
    ensures
        assoc_map(s).contains_key(s[i].0),
        assoc_map(s)[s[i].0] == s[i].1,
{
    lemma_assoc_map(s);
}

/// A key that no pair carries is not in the map.
pub proof fn lemma_assoc_absent<K, V>(s: Seq<(K, V)>, k: K)
    requires
        distinct_keys(s),
        forall|i: int| 0 <= i < s.len() ==> s[i].0 != k,
    ensures
        !assoc_map(s).contains_key(k),
{
    lemma_assoc_map(s);
    if assoc_map(s).contains_key(k) {
        let i = choose|i: int| 0 <= i < s.len() && s[i].0 == k;
        assert(s[i].0 != k);
    }
}

/// Stores `val` at `k`, replacing an earlier value.
pub fn assoc_put<V>(v: &mut Vec<(u128, V)>, k: u128, val: V)
    requires
        distinct_keys(old(v)@),
    ensures
        distinct_keys(final(v)@),
        assoc_map(final(v)@) == assoc_map(old(v)@).insert(k, val),
{
    match assoc_index(v, k) {
        Some(i) => {
            proof {
                lemma_assoc_update(v@, i as int, val);
            }
            v.set(i, (k, val));
        },
        None => {
            proof {
                lemma_assoc_absent(v@, k);
                lemma_assoc_push(v@, k, val);
            }
            v.push((k, val));
        },
    }
}

/// Takes the value stored at `k` out of the list.
pub fn assoc_take<V>(v: &mut Vec<(u128, V)>, k: u128) -> (r: Option<V>)
    requires
        distinct_keys(old(v)@),
    ensures
        distinct_keys(final(v)@),
        assoc_map(final(v)@) == assoc_map(old(v)@).remove(k),
        r matches Some(x) ==> assoc_map(old(v)@).contains_key(k) && assoc_map(old(v)@)[k] == x,
        r is None <==> !assoc_map(old(v)@).contains_key(k),
{
    match assoc_index(v, k) {
        Some(i) => {
            proof {
                lemma_assoc_at(v@, i as int);
                lemma_assoc_remove(v@, i as int);
            }
            let (_, x) = v.remove(i);
            Some(x)
        },
        None => {
            proof {
                lemma_assoc_absent(v@, k);
                assert(assoc_map(v@).remove(k) =~= assoc_map(v@));
            }
            None
        },
    }
}

} // verus!
