//! Maps keyed by the two hashes of a position.
use vstd::prelude::*;
use std::collections::HashMap;
use crate::shogi::{Teban, opposite_of, Banmen, KomaKind, MochigomaKind, Mochigoma, MochigomaCollections, kind_index,
    mochigoma_index, nari_of, kind_of_put};
use crate::rule::AppliedMove;
use crate::rule::state::square_kind;
use crate::rule::apply::{move_on_board, kind_after_move, hands_after_move, obtained_of_move, hand_of};
use rand::Rng;
use rand::SeedableRng;
use rand_xorshift::XorShiftRng;

verus! {

broadcast use {
    vstd::std_specs::hash::axiom_u64_obeys_hash_table_key_model,
    vstd::std_specs::hash::axiom_random_state_builds_valid_hashers,
    vstd::std_specs::hash::axiom_contains_deref_key,
    vstd::std_specs::hash::axiom_maps_deref_key_to_value,
    vstd::std_specs::hash::axiom_deref_key_removed,
};

/// No second key occurs twice in a bucket.
pub open spec fn bucket_distinct<T>(b: Seq<(u64, T)>) -> bool {
    forall|i: int, j: int| 0 <= i < b.len() && 0 <= j < b.len() && i != j ==> #[trigger] b[i].0 != #[trigger] b[j].0
}

/// Whether the bucket holds the second key `sk`.
pub open spec fn bucket_has<T>(b: Seq<(u64, T)>, sk: u64) -> bool {
    exists|i: int| 0 <= i < b.len() && #[trigger] b[i].0 == sk
}

/// The place of the second key `sk` in the bucket.
pub open spec fn bucket_index<T>(b: Seq<(u64, T)>, sk: u64) -> int {
    choose|i: int| 0 <= i < b.len() && #[trigger] b[i].0 == sk
}

/// A bucket read as a map from second keys to values.
pub open spec fn bucket_view<T>(b: Seq<(u64, T)>) -> Map<u64, T> {
    Map::new(|sk: u64| bucket_has(b, sk), |sk: u64| b[bucket_index(b, sk)].1)
}

/// In a bucket without repeated keys, the place of a key is the one that holds it.
proof fn lemma_bucket_index<T>(b: Seq<(u64, T)>, i: int)
    requires
        bucket_distinct(b),
        0 <= i < b.len(),
    ensures
        bucket_has(b, b[i].0),
        bucket_index(b, b[i].0) == i,
        bucket_view(b).contains_key(b[i].0),
        bucket_view(b)[b[i].0] == b[i].1,
{
    assert(b[i].0 == b[i].0);
    let j = bucket_index(b, b[i].0);
    assert(0 <= j < b.len() && b[j].0 == b[i].0);
}

/// Adding a new key at the end of a bucket.
proof fn lemma_bucket_push<T>(b: Seq<(u64, T)>, sk: u64, v: T)
    requires
        bucket_distinct(b),
        !bucket_has(b, sk),
    ensures
        bucket_distinct(b.push((sk, v))),
        bucket_view(b.push((sk, v))) == bucket_view(b).insert(sk, v),
{
    let nb = b.push((sk, v));
    assert forall|i: int, j: int| 0 <= i < nb.len() && 0 <= j < nb.len() && i != j implies #[trigger] nb[i].0 != #[trigger] nb[j].0 by {
        if i < b.len() && j < b.len() {
            assert(nb[i] == b[i] && nb[j] == b[j]);
        } else if i < b.len() {
            assert(nb[i] == b[i]);
            assert(b[i].0 == b[i].0);
        } else if j < b.len() {
            assert(nb[j] == b[j]);
            assert(b[j].0 == b[j].0);
        }
    }
    assert forall|k: u64| bucket_view(nb).contains_key(k) == bucket_view(b).insert(sk, v).contains_key(k) by {
        if bucket_has(b, k) {
            let i = bucket_index(b, k);
            assert(nb[i] == b[i]);
        }
        if bucket_has(nb, k) && k != sk {
            let i = bucket_index(nb, k);
            assert(i < b.len());
            assert(nb[i] == b[i]);
        }
        if k == sk {
            assert(nb[b.len() as int].0 == sk);
        }
    }
    assert forall|k: u64| #[trigger] bucket_view(nb).contains_key(k) implies bucket_view(nb)[k] == bucket_view(b).insert(sk, v)[k] by {
        let i = bucket_index(nb, k);
        lemma_bucket_index(nb, i);
        if i < b.len() {
            assert(nb[i] == b[i]);
            lemma_bucket_index(b, i);
        }
    }
    assert(bucket_view(nb) =~= bucket_view(b).insert(sk, v));
}

/// Replacing the value at a place of a bucket.
proof fn lemma_bucket_update<T>(b: Seq<(u64, T)>, i: int, v: T)
    requires
        bucket_distinct(b),
        0 <= i < b.len(),
    ensures
        bucket_distinct(b.update(i, (b[i].0, v))),
        bucket_view(b.update(i, (b[i].0, v))) == bucket_view(b).insert(b[i].0, v),
{
    let sk = b[i].0;
    let nb = b.update(i, (sk, v));
    assert forall|p: int, q: int| 0 <= p < nb.len() && 0 <= q < nb.len() && p != q implies #[trigger] nb[p].0 != #[trigger] nb[q].0 by {
        assert(b[p].0 != b[q].0);
    }
    assert forall|k: u64| bucket_view(nb).contains_key(k) == bucket_view(b).insert(sk, v).contains_key(k) by {
        if bucket_has(b, k) {
            let j = bucket_index(b, k);
            assert(nb[j].0 == b[j].0);
        }
        if bucket_has(nb, k) {
            let j = bucket_index(nb, k);
            assert(nb[j].0 == b[j].0);
        }
        if k == sk {
            assert(nb[i].0 == sk);
        }
    }
    assert forall|k: u64| #[trigger] bucket_view(nb).contains_key(k) implies bucket_view(nb)[k] == bucket_view(b).insert(sk, v)[k] by {
        let j = bucket_index(nb, k);
        lemma_bucket_index(nb, j);
        if j != i {
            assert(nb[j] == b[j]);
            lemma_bucket_index(b, j);
        }
    }
    assert(bucket_view(nb) =~= bucket_view(b).insert(sk, v));
}

/// Taking the entry at a place out of a bucket.
proof fn lemma_bucket_remove<T>(b: Seq<(u64, T)>, i: int)
    requires
        bucket_distinct(b),
        0 <= i < b.len(),
    ensures
        bucket_distinct(b.remove(i)),
        bucket_view(b.remove(i)) == bucket_view(b).remove(b[i].0),
{
    let sk = b[i].0;
    let nb = b.remove(i);
    assert forall|p: int, q: int| 0 <= p < nb.len() && 0 <= q < nb.len() && p != q implies #[trigger] nb[p].0 != #[trigger] nb[q].0 by {
        let pp = if p < i { p } else { p + 1 };
        let qq = if q < i { q } else { q + 1 };
        assert(nb[p] == b[pp] && nb[q] == b[qq]);
        assert(b[pp].0 != b[qq].0);
    }
    assert forall|k: u64| bucket_view(nb).contains_key(k) == bucket_view(b).remove(sk).contains_key(k) by {
        if bucket_has(b, k) && k != sk {
            let j = bucket_index(b, k);
            assert(j != i);
            let jj = if j < i { j } else { j - 1 };
            assert(nb[jj] == b[j]);
        }
        if bucket_has(nb, k) {
            let j = bucket_index(nb, k);
            let jj = if j < i { j } else { j + 1 };
            assert(nb[j] == b[jj]);
            assert(jj != i ==> b[jj].0 != b[i].0);
        }
    }
    assert forall|k: u64| #[trigger] bucket_view(nb).contains_key(k) implies bucket_view(nb)[k] == bucket_view(b).remove(sk)[k] by {
        let j = bucket_index(nb, k);
        lemma_bucket_index(nb, j);
        let jj = if j < i { j } else { j + 1 };
        assert(nb[j] == b[jj]);
        lemma_bucket_index(b, jj);
    }
    assert(bucket_view(nb) =~= bucket_view(b).remove(sk));
}

/// The entries of a map of buckets, by pair of keys.
pub open spec fn view_of<T>(m: Map<u64, Vec<(u64, T)>>) -> Map<(u64, u64), T> {
    Map::new(
        |p: (u64, u64)| m.contains_key(p.0) && bucket_view(m[p.0]@).contains_key(p.1),
        |p: (u64, u64)| bucket_view(m[p.0]@)[p.1],
    )
}

/// The entries under the first key `k` (none when there is no bucket).
pub open spec fn entries_at<T>(m: Map<u64, Vec<(u64, T)>>, k: u64) -> Map<u64, T> {
    if m.contains_key(k) { bucket_view(m[k]@) } else { Map::empty() }
}

/// Setting the bucket of `k` changes the entries under `k` only.
proof fn lemma_view_set_bucket<T>(m: Map<u64, Vec<(u64, T)>>, k: u64, nb: Vec<(u64, T)>, e: Map<(u64, u64), T>)
    requires
        forall|p: (u64, u64)| p.0 != k ==> (#[trigger] e.contains_key(p) == view_of(m).contains_key(p)
            && (e.contains_key(p) ==> e[p] == view_of(m)[p])),
        forall|sk: u64| #[trigger] e.contains_key((k, sk)) == bucket_view(nb@).contains_key(sk),
        forall|sk: u64| #[trigger] bucket_view(nb@).contains_key(sk) ==> e[(k, sk)] == bucket_view(nb@)[sk],
    ensures
        view_of(m.insert(k, nb)) == e,
{
    let n = m.insert(k, nb);
    assert forall|p: (u64, u64)| #[trigger] view_of(n).contains_key(p) == e.contains_key(p) by {
        if p.0 == k {
            assert(e.contains_key((k, p.1)) == bucket_view(nb@).contains_key(p.1));
        }
    }
    assert forall|p: (u64, u64)| #[trigger] view_of(n).contains_key(p) implies view_of(n)[p] == e[p] by {
        if p.0 == k {
            assert(bucket_view(nb@).contains_key(p.1));
        }
    }
    assert(view_of(n) =~= e);
}

/// Taking out the bucket of `k` drops the entries under `k`.
proof fn lemma_view_remove_bucket<T>(m: Map<u64, Vec<(u64, T)>>, k: u64, e: Map<(u64, u64), T>)
    requires
        forall|p: (u64, u64)| p.0 != k ==> (#[trigger] e.contains_key(p) == view_of(m).contains_key(p)
            && (e.contains_key(p) ==> e[p] == view_of(m)[p])),
        forall|sk: u64| !#[trigger] e.contains_key((k, sk)),
    ensures
        view_of(m.remove(k)) == e,
{
    let n = m.remove(k);
    assert forall|p: (u64, u64)| #[trigger] view_of(n).contains_key(p) == e.contains_key(p) by {
        if p.0 == k {
            assert(!e.contains_key((k, p.1)));
        }
    }
    assert(view_of(n) =~= e);
}

/// A bucket with a single entry.
proof fn lemma_bucket_single<T>(sk: u64, v: T)
    ensures
        bucket_distinct(seq![(sk, v)]),
        bucket_view(seq![(sk, v)]) == Map::<u64, T>::empty().insert(sk, v),
{
    let b = seq![(sk, v)];
    assert(b[0].0 == sk);
    assert forall|k: u64| bucket_view(b).contains_key(k) == Map::<u64, T>::empty().insert(sk, v).contains_key(k) by {
        if bucket_has(b, k) {
            let i = bucket_index(b, k);
            assert(i == 0);
        }
    }
    lemma_bucket_index(b, 0);
    assert(bucket_view(b) =~= Map::<u64, T>::empty().insert(sk, v));
}

/// `HashMap::get_mut`: a mutable reference to the bucket stored under `k`, if
/// any; what is written through it becomes the bucket under `k`, and nothing
/// else in the map changes.
#[verifier::external_body]
fn hash_map_get_mut<'a, T>(m: &'a mut HashMap<u64, Vec<(u64, T)>>, k: &u64) -> (r: Option<&'a mut Vec<(u64, T)>>)
    ensures
        old(m)@.contains_key(*k) <==> r is Some,
        !old(m)@.contains_key(*k) ==> final(m)@ == old(m)@,
        old(m)@.contains_key(*k) ==> *r->0 == old(m)@[*k] && final(m)@ == old(m)@.insert(*k, *final(r->0)),
{
    m.get_mut(k)
}

/// A map from pairs of keys (a hash and a second hash that tells apart positions
/// sharing the first) to values.
pub struct TwoKeyHashMap<T> {
    map: HashMap<u64, Vec<(u64, T)>>,
}

impl<T> TwoKeyHashMap<T> {
    /// No bucket repeats a second key.
    pub closed spec fn wf(&self) -> bool {
        forall|k: u64| #[trigger] self.map@.contains_key(k) ==> bucket_distinct(self.map@[k]@)
    }

    /// The entries, by pair of keys.
    pub closed spec fn view(&self) -> Map<(u64, u64), T> {
        view_of(self.map@)
    }

    /// An empty map.
    pub fn new() -> (r: TwoKeyHashMap<T>)
        ensures
            r.wf(),
            r.view() == Map::<(u64, u64), T>::empty(),
    {
        let r = TwoKeyHashMap { map: HashMap::new() };
        assert(r.view() =~= Map::<(u64, u64), T>::empty());
        r
    }

    /// The value stored under `k` and `sk`.
    pub fn get(&self, k: &u64, sk: &u64) -> (r: Option<&T>)
        requires
            self.wf(),
        ensures
            match r {
                Some(v) => self.view().contains_key((*k, *sk)) && *v == self.view()[(*k, *sk)],
                None => !self.view().contains_key((*k, *sk)),
            },
    {
        match self.map.get(k) {
            Some(v) => {
                proof {
                    assert(self.map@.contains_key(*k));
                    assert(bucket_distinct(v@));
                }
                if v.len() == 1 && v[0].0 == *sk {
                    proof {
                        lemma_bucket_index(v@, 0);
                    }
                    return Some(&v[0].1);
                } else if v.len() > 1 {
                    let mut i: usize = 0;
                    while i < v.len()
                        invariant
                            i <= v.len(),
                            forall|j: int| 0 <= j < i ==> v@[j].0 != *sk,
                            bucket_distinct(v@),
                            self.map@.contains_key(*k),
                            self.map@[*k] == *v,
                        decreases v.len() - i,
                    {
                        if v[i].0 == *sk {
                            proof {
                                lemma_bucket_index(v@, i as int);
                            }
                            return Some(&v[i].1);
                        }
                        i += 1;
                    }
                    None
                } else {
                    proof {
                        if bucket_has(v@, *sk) {
                            let j = bucket_index(v@, *sk);
                            assert(j == 0);
                        }
                    }
                    None
                }
            },
            None => None,
        }
    }

    /// Stores `nv` under `k` and `sk`; returns the value stored there before, if any.
    pub fn insert(&mut self, k: u64, sk: u64, nv: T) -> (r: Option<T>)
        requires
            old(self).wf(),
        ensures
            final(self).wf(),
            final(self).view() == old(self).view().insert((k, sk), nv),
            match r {
                Some(v) => old(self).view().contains_key((k, sk)) && v == old(self).view()[(k, sk)],
                None => !old(self).view().contains_key((k, sk)),
            },
    {
        let ghost m0 = self.map@;
        let ghost e = view_of(m0).insert((k, sk), nv);
        match self.map.remove(&k) {
            Some(mut v) => {
                let ghost b = v@;
                proof {
                    assert(m0.contains_key(k) && m0[k] == v);
                    assert(bucket_distinct(b));
                }
                if v.len() == 1 {
                    if v[0].0 == sk {
                        let (_, old) = v.remove(0);
                        v.push((sk, nv));
                        proof {
                            lemma_bucket_index(b, 0);
                            assert(v@ =~= b.update(0, (sk, nv)));
                            lemma_bucket_update(b, 0, nv);
                            lemma_view_set_bucket(m0, k, v, e);
                        }
                        self.map.insert(k, v);
                        proof {
                            assert(self.map@ =~= m0.insert(k, v));
                        }
                        return Some(old);
                    } else {
                        proof {
                            if bucket_has(b, sk) {
                                let j = bucket_index(b, sk);
                                assert(j == 0);
                            }
                        }
                        v.push((sk, nv));
                        proof {
                            lemma_bucket_push(b, sk, nv);
                            lemma_view_set_bucket(m0, k, v, e);
                        }
                        self.map.insert(k, v);
                        proof {
                            assert(self.map@ =~= m0.insert(k, v));
                        }
                        return None;
                    }
                } else if v.len() > 1 {
                    let mut i: usize = 0;
                    while i < v.len()
                        invariant
                            i <= v.len(),
                            v@ == b,
                            forall|j: int| 0 <= j < i ==> b[j].0 != sk,
                            bucket_distinct(b),
                            self.map@ == m0.remove(k),
                            m0.contains_key(k),
                            m0[k]@ == b,
                            forall|kk: u64| #[trigger] m0.contains_key(kk) ==> bucket_distinct(m0[kk]@),
                            e == view_of(m0).insert((k, sk), nv),
                            old(self).map@ == m0,
                        decreases v.len() - i,
                    {
                        if v[i].0 == sk {
                            let (_, old) = v.remove(i);
                            v.insert(i, (sk, nv));
                            proof {
                                lemma_bucket_index(b, i as int);
                                assert(v@ =~= b.update(i as int, (sk, nv)));
                                lemma_bucket_update(b, i as int, nv);
                                lemma_view_set_bucket(m0, k, v, e);
                            }
                            self.map.insert(k, v);
                            proof {
                                assert(self.map@ =~= m0.insert(k, v));
                            }
                            return Some(old);
                        }
                        i += 1;
                    }
                    v.push((sk, nv));
                    proof {
                        lemma_bucket_push(b, sk, nv);
                        lemma_view_set_bucket(m0, k, v, e);
                    }
                    self.map.insert(k, v);
                    proof {
                        assert(self.map@ =~= m0.insert(k, v));
                    }
                    return None;
                } else {
                    let mut nb: Vec<(u64, T)> = Vec::new();
                    nb.push((sk, nv));
                    proof {
                        assert(nb@ =~= seq![(sk, nv)]);
                        lemma_bucket_single(sk, nv);
                        assert(bucket_view(b) =~= Map::<u64, T>::empty());
                        lemma_view_set_bucket(m0, k, nb, e);
                    }
                    self.map.insert(k, nb);
                    proof {
                        assert(self.map@ =~= m0.insert(k, nb));
                    }
                    None
                }
            },
            None => {
                let mut nb: Vec<(u64, T)> = Vec::new();
                nb.push((sk, nv));
                proof {
                    assert(nb@ =~= seq![(sk, nv)]);
                    lemma_bucket_single(sk, nv);
                    lemma_view_set_bucket(m0, k, nb, e);
                }
                self.map.insert(k, nb);
                proof {
                    assert(self.map@ =~= m0.insert(k, nb));
                }
                None
            },
        }
    }

    /// Removes what is stored under `k` and `sk`, and returns it.
    pub fn remove(&mut self, k: &u64, sk: &u64) -> (r: Option<T>)
        requires
            old(self).wf(),
        ensures
            final(self).wf(),
            final(self).view() == old(self).view().remove((*k, *sk)),
            match r {
                Some(v) => old(self).view().contains_key((*k, *sk)) && v == old(self).view()[(*k, *sk)],
                None => !old(self).view().contains_key((*k, *sk)),
            },
    {
        let ghost m0 = self.map@;
        let ghost e = view_of(m0).remove((*k, *sk));
        match self.map.remove(k) {
            Some(mut v) => {
                let ghost b = v@;
                proof {
                    assert(m0.contains_key(*k) && m0[*k] == v);
                    assert(bucket_distinct(b));
                }
                if v.len() == 1 && v[0].0 == *sk {
                    let (_, old) = v.remove(0);
                    proof {
                        lemma_bucket_index(b, 0);
                        lemma_bucket_remove(b, 0);
                        assert(bucket_view(v@) =~= Map::<u64, T>::empty());
                        assert forall|s: u64| !#[trigger] e.contains_key((*k, s)) by {
                            assert(!bucket_view(v@).contains_key(s));
                        }
                        lemma_view_remove_bucket(m0, *k, e);
                    }
                    return Some(old);
                }
                let mut i: usize = 0;
                while i < v.len()
                    invariant
                        i <= v.len(),
                        v@ == b,
                        forall|j: int| 0 <= j < i ==> b[j].0 != *sk,
                        bucket_distinct(b),
                        self.map@ == m0.remove(*k),
                        m0.contains_key(*k),
                        m0[*k]@ == b,
                        forall|kk: u64| #[trigger] m0.contains_key(kk) ==> bucket_distinct(m0[kk]@),
                        e == view_of(m0).remove((*k, *sk)),
                        old(self).map@ == m0,
                    decreases v.len() - i,
                {
                    if v[i].0 == *sk {
                        let (_, old) = v.remove(i);
                        proof {
                            lemma_bucket_index(b, i as int);
                            lemma_bucket_remove(b, i as int);
                            lemma_view_set_bucket(m0, *k, v, e);
                        }
                        self.map.insert(*k, v);
                        proof {
                            assert(self.map@ =~= m0.insert(*k, v));
                        }
                        return Some(old);
                    }
                    i += 1;
                }
                proof {
                    assert(!bucket_has(b, *sk));
                    assert(e =~= view_of(m0));
                    lemma_view_set_bucket(m0, *k, v, e);
                }
                self.map.insert(*k, v);
                proof {
                    assert(self.map@ =~= m0.insert(*k, v));
                }
                None
            },
            None => {
                proof {
                    assert(e =~= view_of(m0));
                }
                None
            },
        }
    }

    /// The place of `sk` in the bucket of `k`.
    fn find_index(&self, k: &u64, sk: &u64) -> (r: Option<usize>)
        requires
            self.wf(),
        ensures
            match r {
                Some(i) => self.map@.contains_key(*k) && i < self.map@[*k]@.len() && self.map@[*k]@[i as int].0 == *sk,
                None => !self.view().contains_key((*k, *sk)),
            },
    {
        match self.map.get(k) {
            Some(v) => {
                let mut i: usize = 0;
                while i < v.len()
                    invariant
                        i <= v.len(),
                        forall|j: int| 0 <= j < i ==> v@[j].0 != *sk,
                        self.map@.contains_key(*k),
                        self.map@[*k] == *v,
                    decreases v.len() - i,
                {
                    if v[i].0 == *sk {
                        return Some(i);
                    }
                    i += 1;
                }
                None
            },
            None => None,
        }
    }

    /// A mutable reference to the value stored under `k` and `sk`; what is
    /// written through it becomes the value under that pair.
    pub fn get_mut(&mut self, k: &u64, sk: &u64) -> (r: Option<&mut T>)
        requires
            old(self).wf(),
        ensures
            final(self).wf(),
            old(self).view().contains_key((*k, *sk)) <==> r is Some,
            !old(self).view().contains_key((*k, *sk)) ==> final(self).view() == old(self).view(),
            old(self).view().contains_key((*k, *sk)) ==> *r->0 == old(self).view()[(*k, *sk)]
                && final(self).view() == old(self).view().insert((*k, *sk), *final(r->0)),
    {
        let ghost m0 = self.map@;
        match self.find_index(k, sk) {
            None => None,
            Some(i) => {
                let ghost b = m0[*k]@;
                proof {
                    assert(bucket_distinct(b));
                    lemma_bucket_index(b, i as int);
                }
                match hash_map_get_mut(&mut self.map, k) {
                    Some(v) => {
                        let ghost fv = *final(v);
                        let x = &mut v[i].1;
                        proof {
                            lemma_bucket_update(b, i as int, *final(x));
                            assert(fv@ =~= b.update(i as int, (b[i as int].0, *final(x))));
                            let e = view_of(m0).insert((*k, *sk), *final(x));
                            lemma_view_set_bucket(m0, *k, fv, e);
                        }
                        Some(x)
                    },
                    None => None,
                }
            },
        }
    }

    /// Removes every entry.
    pub fn clear(&mut self)
        ensures
            final(self).wf(),
            final(self).view() == Map::<(u64, u64), T>::empty(),
    {
        self.map.clear();
        proof {
            assert(self.view() =~= Map::<(u64, u64), T>::empty());
        }
    }
}


/// What is read back under a pair of keys is what was last stored under it;
/// storing under one pair leaves every other pair as it was.
pub proof fn law_get_after_insert<T>(m: Map<(u64, u64), T>, k: u64, sk: u64, v: T, k2: u64, sk2: u64)
    ensures
        m.insert((k, sk), v).contains_key((k, sk)),
        m.insert((k, sk), v)[(k, sk)] == v,
        (k2, sk2) != (k, sk) ==> (m.insert((k, sk), v).contains_key((k2, sk2)) == m.contains_key((k2, sk2))
            && (m.contains_key((k2, sk2)) ==> m.insert((k, sk), v)[(k2, sk2)] == m[(k2, sk2)])),
{
}

/// Removing a pair that was just stored, when it was not stored before, gives
/// back the map as it was; after removing a pair, nothing is read under it.
pub proof fn law_remove_after_insert<T>(m: Map<(u64, u64), T>, k: u64, sk: u64, v: T)
    ensures
        !m.contains_key((k, sk)) ==> m.insert((k, sk), v).remove((k, sk)) == m,
        !m.remove((k, sk)).contains_key((k, sk)),
{
    if !m.contains_key((k, sk)) {
        assert(m.insert((k, sk), v).remove((k, sk)) =~= m);
    }
}

/// The maps of both sides, each keyed by the two hashes of a position.
pub struct KyokumenMap<T> {
    sente_map: TwoKeyHashMap<T>,
    gote_map: TwoKeyHashMap<T>,
}

impl<T> KyokumenMap<T> {
    /// Both maps are well formed.
    pub closed spec fn wf(&self) -> bool {
        self.sente_map.wf() && self.gote_map.wf()
    }

    /// The entries of side `teban`.
    pub closed spec fn view_of_side(&self, teban: Teban) -> Map<(u64, u64), T> {
        match teban {
            Teban::Sente => self.sente_map.view(),
            Teban::Gote => self.gote_map.view(),
        }
    }

    /// Two empty maps.
    pub fn new() -> (r: KyokumenMap<T>)
        ensures
            r.wf(),
            r.view_of_side(Teban::Sente) == Map::<(u64, u64), T>::empty(),
            r.view_of_side(Teban::Gote) == Map::<(u64, u64), T>::empty(),
    {
        KyokumenMap { sente_map: TwoKeyHashMap::new(), gote_map: TwoKeyHashMap::new() }
    }

    /// The value stored for side `teban` under `k` and `sk`.
    pub fn get(&self, teban: Teban, k: &u64, sk: &u64) -> (r: Option<&T>)
        requires
            self.wf(),
        ensures
            match r {
                Some(v) => self.view_of_side(teban).contains_key((*k, *sk)) && *v == self.view_of_side(teban)[(*k, *sk)],
                None => !self.view_of_side(teban).contains_key((*k, *sk)),
            },
    {
        match teban {
            Teban::Sente => self.sente_map.get(k, sk),
            Teban::Gote => self.gote_map.get(k, sk),
        }
    }

    /// A mutable reference to the value stored for side `teban` under `k` and `sk`.
    pub fn get_mut(&mut self, teban: Teban, k: &u64, sk: &u64) -> (r: Option<&mut T>)
        requires
            old(self).wf(),
        ensures
            final(self).wf(),
            final(self).view_of_side(opposite_of(teban)) == old(self).view_of_side(opposite_of(teban)),
            old(self).view_of_side(teban).contains_key((*k, *sk)) <==> r is Some,
            !old(self).view_of_side(teban).contains_key((*k, *sk)) ==> final(self).view_of_side(teban) == old(self).view_of_side(teban),
            old(self).view_of_side(teban).contains_key((*k, *sk)) ==> *r->0 == old(self).view_of_side(teban)[(*k, *sk)]
                && final(self).view_of_side(teban) == old(self).view_of_side(teban).insert((*k, *sk), *final(r->0)),
    {
        match teban {
            Teban::Sente => self.sente_map.get_mut(k, sk),
            Teban::Gote => self.gote_map.get_mut(k, sk),
        }
    }

    /// Stores `nv` for side `teban` under `k` and `sk`; returns the value stored there before.
    pub fn insert(&mut self, teban: Teban, k: u64, sk: u64, nv: T) -> (r: Option<T>)
        requires
            old(self).wf(),
        ensures
            final(self).wf(),
            final(self).view_of_side(teban) == old(self).view_of_side(teban).insert((k, sk), nv),
            final(self).view_of_side(opposite_of(teban)) == old(self).view_of_side(opposite_of(teban)),
            match r {
                Some(v) => old(self).view_of_side(teban).contains_key((k, sk)) && v == old(self).view_of_side(teban)[(k, sk)],
                None => !old(self).view_of_side(teban).contains_key((k, sk)),
            },
    {
        match teban {
            Teban::Sente => self.sente_map.insert(k, sk, nv),
            Teban::Gote => self.gote_map.insert(k, sk, nv),
        }
    }

    /// Removes what is stored for side `teban` under `k` and `sk`, and returns it.
    pub fn remove(&mut self, teban: Teban, k: &u64, sk: &u64) -> (r: Option<T>)
        requires
            old(self).wf(),
        ensures
            final(self).wf(),
            final(self).view_of_side(teban) == old(self).view_of_side(teban).remove((*k, *sk)),
            final(self).view_of_side(opposite_of(teban)) == old(self).view_of_side(opposite_of(teban)),
            match r {
                Some(v) => old(self).view_of_side(teban).contains_key((*k, *sk)) && v == old(self).view_of_side(teban)[(*k, *sk)],
                None => !old(self).view_of_side(teban).contains_key((*k, *sk)),
            },
    {
        match teban {
            Teban::Sente => self.sente_map.remove(k, sk),
            Teban::Gote => self.gote_map.remove(k, sk),
        }
    }

    /// Removes every entry of side `teban`.
    pub fn clear(&mut self, teban: Teban)
        requires
            old(self).wf(),
        ensures
            final(self).wf(),
            final(self).view_of_side(teban) == Map::<(u64, u64), T>::empty(),
            final(self).view_of_side(opposite_of(teban)) == old(self).view_of_side(opposite_of(teban)),
    {
        match teban {
            Teban::Sente => self.sente_map.clear(),
            Teban::Gote => self.gote_map.clear(),
        }
    }
}

/// Integer types that start a hash from a fixed value.
pub trait InitialHash: Sized {
    /// The value a hash starts from.
    const INITIAL_HASH: Self;
}

impl InitialHash for u128 {
    const INITIAL_HASH: u128 = 0;
}

impl InitialHash for u64 {
    const INITIAL_HASH: u64 = 0;
}

impl InitialHash for u32 {
    const INITIAL_HASH: u32 = 0;
}

impl InitialHash for u16 {
    const INITIAL_HASH: u16 = 0;
}

impl InitialHash for u8 {
    const INITIAL_HASH: u8 = 0;
}

/// The xorshift generator of `rand_xorshift`.
#[verifier::external_type_specification]
#[verifier::external_body]
pub struct ExXorShiftRng(XorShiftRng);

/// Sixteen random bytes from `rand`'s thread-local generator
/// (`rand::thread_rng().gen()`); nothing is stated of their values.
#[verifier::external_body]
fn thread_seed() -> [u8; 16] {
    rand::thread_rng().gen::<[u8; 16]>()
}

/// `XorShiftRng::from_seed`: a generator started from `seed` (a preset seed
/// replaces an all-zero one); the generator's state is not visible here.
#[verifier::external_body]
fn xorshift_from_seed(seed: [u8; 16]) -> XorShiftRng {
    XorShiftRng::from_seed(seed)
}

/// The next `u64` of the generator (`Rng::gen::<u64>()`); nothing is stated of its value.
#[verifier::external_body]
fn next_seed(rng: &mut XorShiftRng) -> u64 {
    rng.gen::<u64>()
}

/// The number of kinds a square can hold (the 28 pieces and the blank).
pub const KOMA_KIND_COUNT: usize = 29;
/// The largest number of pieces of one kind a side can hold, plus one.
pub const MOCHIGOMA_MAX: usize = 18;
/// The number of entries per count of the seeds of pieces in hand.
pub const MOCHIGOMA_KIND_COUNT: usize = 7;

/// Random seeds for hashing positions: one per kind and cell of the board,
/// and one per side, count and kind of piece in hand. A position's hashes
/// combine the seeds of what it holds, so that a move changes them by a few seeds.
pub struct KyokumenHash {
    kyokumen_hash_seeds: Vec<Vec<u64>>,
    mochigoma_hash_seeds: Vec<Vec<Vec<u64>>>,
}

/// The kind on cell `j` of the board, the cells numbered row by row from the top left.
pub open spec fn cell_kind(b: Banmen, j: int) -> KomaKind {
    b.0[j / 9][j % 9]
}

impl KyokumenHash {
    /// The seed of kind index `k` on cell `j`.
    pub closed spec fn kseed(&self, k: int, j: int) -> u64 {
        self.kyokumen_hash_seeds@[k]@[j]
    }

    /// The seed of the `i`-th piece of kind index `k` in the hand of side `side` (0 sente, 1 gote).
    pub closed spec fn mseed(&self, side: int, i: int, k: int) -> u64 {
        self.mochigoma_hash_seeds@[side]@[i]@[k]
    }

    /// The seed tables have their full size.
    pub closed spec fn wf(&self) -> bool {
        &&& self.kyokumen_hash_seeds@.len() == KOMA_KIND_COUNT
        &&& forall|k: int| 0 <= k < KOMA_KIND_COUNT ==> #[trigger] self.kyokumen_hash_seeds@[k]@.len() == 81
        &&& self.mochigoma_hash_seeds@.len() == 2
        &&& forall|s: int| 0 <= s < 2 ==> #[trigger] self.mochigoma_hash_seeds@[s]@.len() == MOCHIGOMA_MAX
        &&& forall|s: int, i: int| 0 <= s < 2 && 0 <= i < MOCHIGOMA_MAX ==>
            #[trigger] self.mochigoma_hash_seeds@[s]@[i]@.len() == MOCHIGOMA_KIND_COUNT
    }

    /// Seeds drawn from a xorshift generator seeded at random.
    pub fn new() -> (r: KyokumenHash)
        ensures
            r.wf(),
    {
        let mut rnd = xorshift_from_seed(thread_seed());
        let mut ks: Vec<Vec<u64>> = Vec::new();
        let mut i: usize = 0;
        while i < KOMA_KIND_COUNT
            invariant
                i <= KOMA_KIND_COUNT,
                ks@.len() == i,
                forall|k: int| 0 <= k < i ==> #[trigger] ks@[k]@.len() == 81,
            decreases KOMA_KIND_COUNT - i,
        {
            let mut row: Vec<u64> = Vec::new();
            let mut j: usize = 0;
            while j < 81
                invariant
                    j <= 81,
                    row@.len() == j,
                decreases 81 - j,
            {
                row.push(next_seed(&mut rnd));
                j = j + 1;
            }
            ks.push(row);
            i = i + 1;
        }
        let mut sente: Vec<Vec<u64>> = Vec::new();
        let mut gote: Vec<Vec<u64>> = Vec::new();
        let mut i: usize = 0;
        while i < MOCHIGOMA_MAX
            invariant
                i <= MOCHIGOMA_MAX,
                sente@.len() == i,
                gote@.len() == i,
                forall|c: int| 0 <= c < i ==> #[trigger] sente@[c]@.len() == MOCHIGOMA_KIND_COUNT,
                forall|c: int| 0 <= c < i ==> #[trigger] gote@[c]@.len() == MOCHIGOMA_KIND_COUNT,
            decreases MOCHIGOMA_MAX - i,
        {
            let mut rs: Vec<u64> = Vec::new();
            let mut rg: Vec<u64> = Vec::new();
            let mut j: usize = 0;
            while j < MOCHIGOMA_KIND_COUNT
                invariant
                    j <= MOCHIGOMA_KIND_COUNT,
                    rs@.len() == j,
                    rg@.len() == j,
                decreases MOCHIGOMA_KIND_COUNT - j,
            {
                rs.push(next_seed(&mut rnd));
                rg.push(next_seed(&mut rnd));
                j = j + 1;
            }
            sente.push(rs);
            gote.push(rg);
            i = i + 1;
        }
        let mut ms: Vec<Vec<Vec<u64>>> = Vec::new();
        ms.push(sente);
        ms.push(gote);
        KyokumenHash { kyokumen_hash_seeds: ks, mochigoma_hash_seeds: ms }
    }

    /// The XOR of the seeds of the first `n` cells of `b`.
    pub open spec fn board_xor(&self, b: Banmen, n: int) -> u64
        decreases n,
    {
        if n <= 0 { 0 } else { self.board_xor(b, n - 1) ^ self.kseed(kind_index(cell_kind(b, n - 1)), n - 1) }
    }

    /// The wrapping sum of the seeds of the first `n` cells of `b`.
    pub open spec fn board_sum(&self, b: Banmen, n: int) -> u64
        decreases n,
    {
        if n <= 0 { 0 } else { self.board_sum(b, n - 1).wrapping_add(self.kseed(kind_index(cell_kind(b, n - 1)), n - 1)) }
    }

    /// The XOR of the seeds of the first `c` pieces of kind index `k` in the hand of `side`.
    pub open spec fn piece_xor(&self, side: int, k: int, c: int) -> u64
        decreases c,
    {
        if c <= 0 { 0 } else { self.piece_xor(side, k, c - 1) ^ self.mseed(side, c - 1, k) }
    }

    /// The wrapping sum of the seeds of the first `c` pieces of kind index `k` in the hand of `side`.
    pub open spec fn piece_sum(&self, side: int, k: int, c: int, h: u64) -> u64
        decreases c,
    {
        if c <= 0 { h } else { self.piece_sum(side, k, c - 1, h).wrapping_add(self.mseed(side, c - 1, k)) }
    }

    /// The main hash after the hands' first `n` kinds are added to `h`, sente's before gote's for each kind.
    pub open spec fn hands_xor(&self, ms: Seq<u32>, mg: Seq<u32>, n: int, h: u64) -> u64
        decreases n,
    {
        if n <= 0 { h } else {
            let a = self.hands_xor(ms, mg, n - 1, h);
            (a ^ self.piece_xor(0, n - 1, ms[n - 1] as int)) ^ self.piece_xor(1, n - 1, mg[n - 1] as int)
        }
    }

    /// The sub hash after the hands' first `n` kinds are added to `h`.
    pub open spec fn hands_sum(&self, ms: Seq<u32>, mg: Seq<u32>, n: int, h: u64) -> u64
        decreases n,
    {
        if n <= 0 { h } else {
            let a = self.hands_sum(ms, mg, n - 1, h);
            self.piece_sum(1, n - 1, mg[n - 1] as int, self.piece_sum(0, n - 1, ms[n - 1] as int, a))
        }
    }

    /// The main and sub hashes of a position with board `b` and hands `ms`, `mg`.
    pub open spec fn initial_hash_spec(&self, b: Banmen, ms: Seq<u32>, mg: Seq<u32>) -> (u64, u64) {
        (self.hands_xor(ms, mg, 7, self.board_xor(b, 81)), self.hands_sum(ms, mg, 7, self.board_sum(b, 81)))
    }

    /// The main and sub hashes of a position: the seed of each cell's kind,
    /// and of each piece in hand by its place in the count; XOR for the main
    /// hash, a wrapping sum for the sub hash.
    pub fn calc_initial_hash(&self, b: &Banmen, ms: &Mochigoma, mg: &Mochigoma) -> (r: (u64, u64))
        requires
            self.wf(),
            forall|i: int| 0 <= i < 7 ==> #[trigger] ms@[i] <= MOCHIGOMA_MAX && mg@[i] <= MOCHIGOMA_MAX,
        ensures
            r == self.initial_hash_spec(*b, ms@, mg@),
    {
        proof {
            crate::shogi::lemma_mochigoma_len(*ms);
            crate::shogi::lemma_mochigoma_len(*mg);
        }
        let mut mhash: u64 = 0;
        let mut shash: u64 = 0;
        let mut j: usize = 0;
        while j < 81
            invariant
                self.wf(),
                j <= 81,
                mhash == self.board_xor(*b, j as int),
                shash == self.board_sum(*b, j as int),
            decreases 81 - j,
        {
            let y = j / 9;
            let x = j % 9;
            let k = b.0[y][x].to_index();
            let seed = self.kyokumen_hash_seeds[k][j];
            mhash = mhash ^ seed;
            shash = shash.wrapping_add(seed);
            j = j + 1;
        }
        let mut n: usize = 0;
        let ghost bx = mhash;
        let ghost bs = shash;
        while n < 7
            invariant
                self.wf(),
                n <= 7,
                ms@.len() == 7,
                mg@.len() == 7,
                forall|i: int| 0 <= i < 7 ==> #[trigger] ms@[i] <= MOCHIGOMA_MAX && mg@[i] <= MOCHIGOMA_MAX,
                mhash == self.hands_xor(ms@, mg@, n as int, bx),
                shash == self.hands_sum(ms@, mg@, n as int, bs),
            decreases 7 - n,
        {
            let k = crate::shogi::MochigomaKind::from_index(n as u32);
            let cs = ms.get(k) as usize;
            let cg = mg.get(k) as usize;
            let mut px: u64 = 0;
            let mut ps: u64 = shash;
            let mut i: usize = 0;
            while i < cs
                invariant
                    self.wf(),
                    n < 7,
                    i <= cs <= MOCHIGOMA_MAX,
                    px == self.piece_xor(0, n as int, i as int),
                    ps == self.piece_sum(0, n as int, i as int, shash),
                decreases cs - i,
            {
                let seed = self.mochigoma_hash_seeds[0][i][n];
                px = px ^ seed;
                ps = ps.wrapping_add(seed);
                i = i + 1;
            }
            let mut gx: u64 = 0;
            let mut gs: u64 = ps;
            let mut i: usize = 0;
            while i < cg
                invariant
                    self.wf(),
                    n < 7,
                    i <= cg <= MOCHIGOMA_MAX,
                    gx == self.piece_xor(1, n as int, i as int),
                    gs == self.piece_sum(1, n as int, i as int, ps),
                decreases cg - i,
            {
                let seed = self.mochigoma_hash_seeds[1][i][n];
                gx = gx ^ seed;
                gs = gs.wrapping_add(seed);
                i = i + 1;
            }
            mhash = (mhash ^ px) ^ gx;
            shash = gs;
            n = n + 1;
        }
        (mhash, shash)
    }

    /// The count of kind `k` in the hand of side `t` (0 when neither side holds any piece).
    pub open spec fn hand_count(mc: MochigomaCollections, t: Teban, k: MochigomaKind) -> int {
        match mc {
            MochigomaCollections::Empty => 0,
            MochigomaCollections::Pair(ms, mg) => if t == Teban::Sente { ms@[mochigoma_index(k)] as int } else { mg@[mochigoma_index(k)] as int },
        }
    }

    /// Combines `h` with seed `v`: XOR for the main hash, wrapping addition (`add`) or subtraction for the sub hash.
    pub open spec fn mix(main: bool, add: bool, h: u64, v: u64) -> u64 {
        if main { h ^ v } else if add { h.wrapping_add(v) } else { h.wrapping_sub(v) }
    }

    /// The hash `h` of a position updated for side `t` playing `m` on board `b`
    /// with hands `mc` (before the move), taking `obtained` into hand: the
    /// moved piece leaves its cell (which becomes blank), whatever stood on the
    /// destination leaves it and the piece, promoted if the move says so,
    /// arrives; a captured piece joins the hand at its count; a dropped piece
    /// leaves the hand at its count less one. A drop of a kind the side does
    /// not hold changes nothing.
    pub open spec fn calc_hash_spec(&self, main: bool, h: u64, t: Teban, b: Banmen, mc: MochigomaCollections,
        m: AppliedMove, obtained: Option<MochigomaKind>) -> u64
    {
        let side: int = if t == Teban::Sente { 0 } else { 1 };
        match m {
            AppliedMove::To(mt) => {
                let from = mt.src_spec() as int;
                let to = mt.dst_spec() as int;
                let cs = (from % 9) * 9 + from / 9;
                let cd = (to % 9) * 9 + to / 9;
                let k = cell_kind(b, cs);
                let h1 = Self::mix(main, false, h, self.kseed(kind_index(k), cs));
                let h2 = Self::mix(main, true, h1, self.kseed(28, cs));
                let h3 = Self::mix(main, false, h2, self.kseed(kind_index(cell_kind(b, cd)), cd));
                let nk = if mt.nari_spec() { nari_of(k) } else { k };
                let h4 = Self::mix(main, true, h3, self.kseed(kind_index(nk), cd));
                match obtained {
                    None => h4,
                    Some(o) => Self::mix(main, true, h4, self.mseed(side, Self::hand_count(mc, t, o), mochigoma_index(o))),
                }
            },
            AppliedMove::Put(mp) => {
                let to = mp.dst_spec() as int;
                let cd = (to % 9) * 9 + to / 9;
                let k = mp.kind_spec();
                let c = Self::hand_count(mc, t, k);
                if c == 0 {
                    h
                } else {
                    let h1 = Self::mix(main, false, h, self.mseed(side, c - 1, mochigoma_index(k)));
                    let h2 = Self::mix(main, false, h1, self.kseed(kind_index(cell_kind(b, cd)), cd));
                    Self::mix(main, true, h2, self.kseed(kind_index(kind_of_put(t, k)), cd))
                }
            },
        }
    }

    /// The counts the update reads stay within the seed tables.
    pub open spec fn calc_hash_requires(mc: MochigomaCollections, t: Teban, m: AppliedMove, obtained: Option<MochigomaKind>) -> bool {
        &&& crate::rule::apply::move_on_board(m)
        &&& (m is To ==> (obtained matches Some(o) ==> Self::hand_count(mc, t, o) < MOCHIGOMA_MAX))
        &&& (m matches AppliedMove::Put(mp) ==> Self::hand_count(mc, t, mp.kind_spec()) <= MOCHIGOMA_MAX)
    }

    fn calc_hash(&self, main: bool, h: u64, t: Teban, b: &Banmen, mc: &MochigomaCollections, m: AppliedMove,
        obtained: &Option<MochigomaKind>) -> (r: u64)
        requires
            self.wf(),
            Self::calc_hash_requires(*mc, t, m, *obtained),
        ensures
            r == self.calc_hash_spec(main, h, t, *b, *mc, m, *obtained),
    {
        let side: usize = if t == Teban::Sente { 0 } else { 1 };
        match m {
            AppliedMove::To(mt) => {
                let from = mt.src() as usize;
                let to = mt.dst() as usize;
                let sx = from / 9;
                let sy = from - sx * 9;
                let dx = to / 9;
                let dy = to - dx * 9;
                let k = b.0[sy][sx];
                let mut hash = h;
                let v = self.kyokumen_hash_seeds[k.to_index()][sy * 9 + sx];
                hash = if main { hash ^ v } else { hash.wrapping_sub(v) };
                let v = self.kyokumen_hash_seeds[28][sy * 9 + sx];
                hash = if main { hash ^ v } else { hash.wrapping_add(v) };
                let dk = b.0[dy][dx];
                let v = self.kyokumen_hash_seeds[dk.to_index()][dy * 9 + dx];
                hash = if main { hash ^ v } else { hash.wrapping_sub(v) };
                let nk = if mt.is_nari() { k.to_nari() } else { k };
                let v = self.kyokumen_hash_seeds[nk.to_index()][dy * 9 + dx];
                hash = if main { hash ^ v } else { hash.wrapping_add(v) };
                match obtained {
                    None => hash,
                    Some(o) => {
                        let c = match mc {
                            MochigomaCollections::Pair(ms, mg) => if t == Teban::Sente { ms.get(*o) } else { mg.get(*o) },
                            MochigomaCollections::Empty => 0,
                        } as usize;
                        let v = self.mochigoma_hash_seeds[side][c][o.to_index()];
                        if main { hash ^ v } else { hash.wrapping_add(v) }
                    },
                }
            },
            AppliedMove::Put(mp) => {
                let to = mp.dst() as usize;
                let k = mp.kind();
                let dx = to / 9;
                let dy = to - dx * 9;
                let c = match mc {
                    MochigomaCollections::Pair(ms, mg) => if t == Teban::Sente { ms.get(k) } else { mg.get(k) },
                    MochigomaCollections::Empty => 0,
                } as usize;
                if c == 0 {
                    return h;
                }
                let mut hash = h;
                let v = self.mochigoma_hash_seeds[side][c - 1][k.to_index()];
                hash = if main { hash ^ v } else { hash.wrapping_sub(v) };
                let dk = b.0[dy][dx];
                let v = self.kyokumen_hash_seeds[dk.to_index()][dy * 9 + dx];
                hash = if main { hash ^ v } else { hash.wrapping_sub(v) };
                let pk = KomaKind::from_put(t, k);
                let v = self.kyokumen_hash_seeds[pk.to_index()][dy * 9 + dx];
                if main { hash ^ v } else { hash.wrapping_add(v) }
            },
        }
    }

    /// The main hash `h` updated for side `t` playing `m` on board `b` with hands `mc` (before the move).
    pub fn calc_main_hash(&self, h: u64, t: Teban, b: &Banmen, mc: &MochigomaCollections, m: AppliedMove,
        obtained: &Option<MochigomaKind>) -> (r: u64)
        requires
            self.wf(),
            Self::calc_hash_requires(*mc, t, m, *obtained),
        ensures
            r == self.calc_hash_spec(true, h, t, *b, *mc, m, *obtained),
    {
        self.calc_hash(true, h, t, b, mc, m, obtained)
    }

    /// The sub hash `h` updated for side `t` playing `m` on board `b` with hands `mc` (before the move).
    pub fn calc_sub_hash(&self, h: u64, t: Teban, b: &Banmen, mc: &MochigomaCollections, m: AppliedMove,
        obtained: &Option<MochigomaKind>) -> (r: u64)
        requires
            self.wf(),
            Self::calc_hash_requires(*mc, t, m, *obtained),
        ensures
            r == self.calc_hash_spec(false, h, t, *b, *mc, m, *obtained),
    {
        self.calc_hash(false, h, t, b, mc, m, obtained)
    }
}

/// The XOR identities the hash updates rest on, in the shapes the proofs use.
proof fn lemma_xor_shapes(x: u64, y: u64, a: u64, b: u64, c: u64, d: u64, e: u64)
    by (bit_vector)
    ensures
        x ^ 0u64 == x,
        x ^ x == 0u64,
        (x ^ a) ^ b == x ^ (a ^ b),
        a ^ (a ^ e) == e,
        (a ^ e) ^ a == e,
        ((x ^ 0u64) ^ d) ^ b == ((x ^ a) ^ (a ^ b)) ^ d,
        ((x ^ d) ^ 0u64) ^ b == ((x ^ a) ^ d) ^ (a ^ b),
        ((x ^ d) ^ e) ^ a == ((x ^ a) ^ d) ^ e,
        ((y ^ x) ^ a) ^ b == y ^ ((x ^ a) ^ b),
        ((x ^ 0u64) ^ b) ^ c == ((x ^ a) ^ c) ^ (a ^ b),
        ((x ^ 0u64) ^ a) ^ c == ((x ^ a) ^ b) ^ (b ^ c),
        ((x ^ d) ^ a) ^ b == ((x ^ a) ^ b) ^ d,
        ((((x ^ y) ^ a) ^ b) ^ c) ^ d == (x ^ ((a ^ b) ^ (c ^ d))) ^ y,
        (((((x ^ y) ^ a) ^ b) ^ c) ^ d) ^ e == (x ^ ((a ^ b) ^ (c ^ d))) ^ (y ^ e),
        (((x ^ y) ^ e) ^ c) ^ d == (x ^ (c ^ d)) ^ (y ^ e),
        (x ^ (c ^ d)) ^ (a ^ a) == x ^ (c ^ d),
{
}

/// The square whose kind cell `j` shows.
pub open spec fn square_of_cell(j: int) -> int {
    (j % 9) * 9 + j / 9
}

proof fn lemma_cell_square(b: Banmen, j: int)
    requires
        0 <= j < 81,
    ensures
        0 <= square_of_cell(j) < 81,
        cell_kind(b, j) == square_kind(b, square_of_cell(j)),
        square_of_cell(j) % 9 == j / 9,
        square_of_cell(j) / 9 == j % 9,
{
    let s = square_of_cell(j);
    vstd::arithmetic::div_mod::lemma_fundamental_div_mod(j, 9);
    vstd::arithmetic::div_mod::lemma_fundamental_div_mod_converse(s, 9, j % 9, j / 9);
}

proof fn lemma_square_cell(s: int)
    requires
        0 <= s < 81,
    ensures
        0 <= (s % 9) * 9 + s / 9 < 81,
        square_of_cell((s % 9) * 9 + s / 9) == s,
{
    let j = (s % 9) * 9 + s / 9;
    vstd::arithmetic::div_mod::lemma_fundamental_div_mod(s, 9);
    vstd::arithmetic::div_mod::lemma_fundamental_div_mod_converse(j, 9, s % 9, s / 9);
}

impl KyokumenHash {
    /// What cell `p` adds to the XOR of the first `n` cells when `b` turns into `b2` there.
    pub open spec fn cell_diff(&self, b: Banmen, b2: Banmen, p: int, n: int) -> u64 {
        if 0 <= p < n {
            self.kseed(kind_index(cell_kind(b, p)), p) ^ self.kseed(kind_index(cell_kind(b2, p)), p)
        } else {
            0
        }
    }

    /// Changing the kinds of cells `p` and `q` changes the XOR of the board by their seeds.
    proof fn lemma_board_xor_change(&self, b: Banmen, b2: Banmen, p: int, q: int, n: int)
        requires
            p != q,
            n <= 81,
            forall|j: int| 0 <= j < 81 && j != p && j != q ==> #[trigger] cell_kind(b2, j) == cell_kind(b, j),
        ensures
            self.board_xor(b2, n) == (self.board_xor(b, n) ^ self.cell_diff(b, b2, p, n)) ^ self.cell_diff(b, b2, q, n),
        decreases n,
    {
        if n <= 0 {
            lemma_xor_shapes(0, 0, 0, 0, 0, 0, 0);
        } else {
            self.lemma_board_xor_change(b, b2, p, q, n - 1);
            let j = n - 1;
            let x = self.board_xor(b, n - 1);
            let dp = self.cell_diff(b, b2, p, n - 1);
            let dq = self.cell_diff(b, b2, q, n - 1);
            let s1 = self.kseed(kind_index(cell_kind(b, j)), j);
            let s2 = self.kseed(kind_index(cell_kind(b2, j)), j);
            if j == p {
                assert(dp == 0);
                lemma_xor_shapes(x, 0, s1, s2, 0, dq, 0);
            } else if j == q {
                assert(dq == 0);
                lemma_xor_shapes(x, 0, s1, s2, 0, dp, 0);
            } else {
                assert(s1 == s2);
                lemma_xor_shapes(x, 0, s1, s2, 0, dp, dq);
            }
        }
    }

    /// The hands' XOR starts from `h`.
    proof fn lemma_hands_xor_base(&self, ms: Seq<u32>, mg: Seq<u32>, n: int, h: u64)
        ensures
            self.hands_xor(ms, mg, n, h) == h ^ self.hands_xor(ms, mg, n, 0),
        decreases n,
    {
        if n <= 0 {
            lemma_xor_shapes(h, 0, 0, 0, 0, 0, 0);
        } else {
            self.lemma_hands_xor_base(ms, mg, n - 1, h);
            let a = self.hands_xor(ms, mg, n - 1, 0);
            let u = self.piece_xor(0, n - 1, ms[n - 1] as int);
            let v = self.piece_xor(1, n - 1, mg[n - 1] as int);
            lemma_xor_shapes(a, h, u, v, 0, 0, 0);
        }
    }

    /// Changing one count of one side's hand changes the hands' XOR by the pieces between the counts.
    proof fn lemma_hands_xor_change(&self, ms: Seq<u32>, mg: Seq<u32>, ms2: Seq<u32>, mg2: Seq<u32>, side: int, i: int, n: int, h: u64)
        requires
            0 <= side < 2,
            0 <= i < 7,
            n <= 7,
            ms.len() == 7 && mg.len() == 7 && ms2.len() == 7 && mg2.len() == 7,
            forall|j: int| 0 <= j < 7 && j != i ==> #[trigger] ms2[j] == ms[j] && mg2[j] == mg[j],
            side == 0 ==> mg2[i] == mg[i],
            side == 1 ==> ms2[i] == ms[i],
        ensures
            self.hands_xor(ms2, mg2, n, h) == self.hands_xor(ms, mg, n, h) ^ (if 0 <= i < n {
                if side == 0 { self.piece_xor(0, i, ms[i] as int) ^ self.piece_xor(0, i, ms2[i] as int) }
                else { self.piece_xor(1, i, mg[i] as int) ^ self.piece_xor(1, i, mg2[i] as int) }
            } else { 0u64 }),
        decreases n,
    {
        if n <= 0 {
            lemma_xor_shapes(h, 0, 0, 0, 0, 0, 0);
        } else {
            self.lemma_hands_xor_change(ms, mg, ms2, mg2, side, i, n - 1, h);
            let a = self.hands_xor(ms, mg, n - 1, h);
            let d = if 0 <= i < n - 1 {
                if side == 0 { self.piece_xor(0, i, ms[i] as int) ^ self.piece_xor(0, i, ms2[i] as int) }
                else { self.piece_xor(1, i, mg[i] as int) ^ self.piece_xor(1, i, mg2[i] as int) }
            } else { 0u64 };
            let j = n - 1;
            let u = self.piece_xor(0, j, ms[j] as int);
            let v = self.piece_xor(1, j, mg[j] as int);
            let u2 = self.piece_xor(0, j, ms2[j] as int);
            let v2 = self.piece_xor(1, j, mg2[j] as int);
            if j == i {
                assert(d == 0);
                if side == 0 {
                    assert(v2 == v);
                    lemma_xor_shapes(a, 0, u, u2, v, 0, 0);
                } else {
                    assert(u2 == u);
                    lemma_xor_shapes(a, 0, u, v, v2, 0, 0);
                }
            } else {
                assert(u2 == u && v2 == v);
                lemma_xor_shapes(a, 0, u, v, 0, d, 0);
            }
        }
    }
}

/// Updating the main hash of a position for a move gives the main hash of
/// the position the move leaves: the board and hands after the move are
/// those `Rule::apply_move_to_banmen_and_mochigoma_none_check` gives, the
/// move does not stay on its square, a drop takes a piece the side holds, and
/// every count stays within the seed tables.
pub proof fn law_main_hash_follows_move(
    kh: KyokumenHash,
    b: Banmen,
    t: Teban,
    ms: Mochigoma,
    mg: Mochigoma,
    m: AppliedMove,
    b2: Banmen,
    ms2: Mochigoma,
    mg2: Mochigoma,
)
    requires
        kh.wf(),
        move_on_board(m),
        m matches AppliedMove::To(mt) ==> mt.src_spec() != mt.dst_spec(),
        m matches AppliedMove::Put(mp) ==> hand_of(MochigomaCollections::Pair(ms, mg), t)[mochigoma_index(mp.kind_spec())] >= 1,
        forall|i: int| 0 <= i < 7 ==> #[trigger] ms@[i] < MOCHIGOMA_MAX && mg@[i] < MOCHIGOMA_MAX,
        forall|i: int| 0 <= i < 7 ==> #[trigger] ms2@[i] < MOCHIGOMA_MAX && mg2@[i] < MOCHIGOMA_MAX,
        forall|s: int| 0 <= s < 81 ==> #[trigger] square_kind(b2, s) == kind_after_move(b, t, m, s),
        hands_after_move(b, t, MochigomaCollections::Pair(ms, mg), m, MochigomaCollections::Pair(ms2, mg2)),
    ensures
        kh.initial_hash_spec(b2, ms2@, mg2@).0 == kh.calc_hash_spec(true, kh.initial_hash_spec(b, ms@, mg@).0, t, b,
            MochigomaCollections::Pair(ms, mg), m, obtained_of_move(b, m)),
{
    crate::shogi::lemma_mochigoma_len(ms);
    crate::shogi::lemma_mochigoma_len(mg);
    crate::shogi::lemma_mochigoma_len(ms2);
    crate::shogi::lemma_mochigoma_len(mg2);
    let mc = MochigomaCollections::Pair(ms, mg);
    let side: int = if t == Teban::Sente { 0 } else { 1 };
    let bx = kh.board_xor(b, 81);
    let bx2 = kh.board_xor(b2, 81);
    let hx = kh.hands_xor(ms@, mg@, 7, 0);
    let hx2 = kh.hands_xor(ms2@, mg2@, 7, 0);
    kh.lemma_hands_xor_base(ms@, mg@, 7, bx);
    kh.lemma_hands_xor_base(ms2@, mg2@, 7, bx2);
    match m {
        AppliedMove::To(mt) => {
            let from = mt.src_spec() as int;
            let to = mt.dst_spec() as int;
            let cs = (from % 9) * 9 + from / 9;
            let cd = (to % 9) * 9 + to / 9;
            lemma_square_cell(from);
            lemma_square_cell(to);
            lemma_cell_square(b, cs);
            lemma_cell_square(b2, cs);
            lemma_cell_square(b, cd);
            lemma_cell_square(b2, cd);
            assert forall|j: int| 0 <= j < 81 && j != cs && j != cd implies #[trigger] cell_kind(b2, j) == cell_kind(b, j) by {
                lemma_cell_square(b, j);
                lemma_cell_square(b2, j);
                lemma_square_cell(square_of_cell(j));
            }
            kh.lemma_board_xor_change(b, b2, cs, cd, 81);
            let k = cell_kind(b, cs);
            let a = kh.kseed(kind_index(k), cs);
            let bb = kh.kseed(28, cs);
            let c = kh.kseed(kind_index(cell_kind(b, cd)), cd);
            let nk = if mt.nari_spec() { nari_of(k) } else { k };
            let d = kh.kseed(kind_index(nk), cd);
            assert(cell_kind(b2, cs) == KomaKind::Blank);
            assert(cell_kind(b2, cd) == nk);
            lemma_xor_shapes(bx, 0, a ^ bb, c ^ d, 0, 0, 0);
            assert(bx2 == bx ^ ((a ^ bb) ^ (c ^ d)));
            match obtained_of_move(b, m) {
                None => {
                    assert(ms2@ =~= ms@);
                    assert(mg2@ =~= mg@);
                    lemma_xor_shapes(bx, hx, a, bb, c, d, 0);
                },
                Some(o) => {
                    let i = mochigoma_index(o);
                    let cnt = KyokumenHash::hand_count(mc, t, o);
                    kh.lemma_hands_xor_change(ms@, mg@, ms2@, mg2@, side, i, 7, 0);
                    let e = kh.mseed(side, cnt, i);
                    if side == 0 {
                        assert(ms2@[i] == ms@[i] + 1);
                        assert(kh.piece_xor(0, i, ms2@[i] as int) == kh.piece_xor(0, i, ms@[i] as int) ^ e);
                    } else {
                        assert(mg2@[i] == mg@[i] + 1);
                        assert(kh.piece_xor(1, i, mg2@[i] as int) == kh.piece_xor(1, i, mg@[i] as int) ^ e);
                    }
                    let p0 = if side == 0 { kh.piece_xor(0, i, ms@[i] as int) } else { kh.piece_xor(1, i, mg@[i] as int) };
                    lemma_xor_shapes(0, 0, p0, 0, 0, 0, e);
                    assert(hx2 == hx ^ e);
                    lemma_xor_shapes(bx, hx, a, bb, c, d, e);
                },
            }
        },
        AppliedMove::Put(mp) => {
            let to = mp.dst_spec() as int;
            let cd = (to % 9) * 9 + to / 9;
            let q = if cd == 0 { 1int } else { 0int };
            lemma_square_cell(to);
            lemma_cell_square(b, cd);
            lemma_cell_square(b2, cd);
            lemma_cell_square(b, q);
            lemma_cell_square(b2, q);
            assert forall|j: int| 0 <= j < 81 && j != cd && j != q implies #[trigger] cell_kind(b2, j) == cell_kind(b, j) by {
                lemma_cell_square(b, j);
                lemma_cell_square(b2, j);
                lemma_square_cell(square_of_cell(j));
            }
            kh.lemma_board_xor_change(b, b2, cd, q, 81);
            assert(cell_kind(b2, q) == cell_kind(b, q)) by {
                lemma_square_cell(square_of_cell(q));
            }
            let w = kh.kseed(kind_index(cell_kind(b, q)), q);
            lemma_xor_shapes(w, 0, 0, 0, 0, 0, 0);
            let k = mp.kind_spec();
            let i = mochigoma_index(k);
            let cnt = KyokumenHash::hand_count(mc, t, k);
            let c = kh.kseed(kind_index(cell_kind(b, cd)), cd);
            let d = kh.kseed(kind_index(kind_of_put(t, k)), cd);
            let e = kh.mseed(side, cnt - 1, i);
            lemma_xor_shapes(bx, 0, w, 0, c, d, 0);
            assert(bx2 == bx ^ (c ^ d));
            kh.lemma_hands_xor_change(ms@, mg@, ms2@, mg2@, side, i, 7, 0);
            let p1 = if side == 0 { kh.piece_xor(0, i, ms2@[i] as int) } else { kh.piece_xor(1, i, mg2@[i] as int) };
            lemma_xor_shapes(0, 0, p1, 0, 0, 0, e);
            assert(hx2 == hx ^ e);
            lemma_xor_shapes(bx, hx, 0, 0, c, d, e);
        },
    }
}

} // verus!