//! A map keyed by strings that keeps its keys in ascending order, as a
//! `BTreeMap<String, V>` does: each key once, iterated from the least.

use vstd::prelude::*;

use crate::text::{lemma_lt_irreflexive, lemma_lt_total, lemma_lt_transitive, owned, seq_lt, str_eq, str_lt};

verus! {

/// Keys in strictly ascending order.
pub open spec fn strictly_sorted(keys: Seq<Seq<char>>) -> bool {
    forall|i: int, j: int| 0 <= i < j < keys.len() ==> seq_lt(keys[i], keys[j])
}

/// The value stored under `k`, if any, in a list of keys and values.
pub open spec fn lookup<V>(keys: Seq<Seq<char>>, vals: Seq<V>, k: Seq<char>) -> Option<V> {
    if exists|i: int| 0 <= i < keys.len() && keys[i] == k {
        Some(vals[choose|i: int| 0 <= i < keys.len() && keys[i] == k])
    } else {
        None
    }
}

pub proof fn lemma_sorted_unique(keys: Seq<Seq<char>>, i: int, j: int)
    requires
        strictly_sorted(keys),
        0 <= i < keys.len(),
        0 <= j < keys.len(),
        keys[i] == keys[j],
    ensures
        i == j,
{
    lemma_lt_irreflexive(keys[i]);
    if i < j {
        assert(seq_lt(keys[i], keys[j]));
    } else if j < i {
        assert(seq_lt(keys[j], keys[i]));
    }
}

pub proof fn lemma_lookup_at<V>(keys: Seq<Seq<char>>, vals: Seq<V>, i: int)
    requires
        strictly_sorted(keys),
        0 <= i < keys.len(),
    ensures
        lookup(keys, vals, keys[i]) == Some(vals[i]),
{
    let j = choose|j: int| 0 <= j < keys.len() && keys[j] == keys[i];
    lemma_sorted_unique(keys, i, j);
}

pub proof fn lemma_lookup_all<V>(keys: Seq<Seq<char>>, vals: Seq<V>)
    requires
        strictly_sorted(keys),
    ensures
        forall|i: int| 0 <= i < keys.len() ==> lookup(keys, vals, #[trigger] keys[i]) == Some(vals[i]),
{
    assert forall|i: int| 0 <= i < keys.len() implies lookup(keys, vals, #[trigger] keys[i]) == Some(vals[i]) by {
        lemma_lookup_at(keys, vals, i);
    }
}

/// Two strictly sorted key lists with the same members are the same list.
pub proof fn lemma_sorted_same_members(a: Seq<Seq<char>>, b: Seq<Seq<char>>)
    requires
        strictly_sorted(a),
        strictly_sorted(b),
        forall|k: Seq<char>| a.contains(k) <==> b.contains(k),
    ensures
        a == b,
    decreases a.len() + b.len(),
{
    if a.len() == 0 {
        if b.len() > 0 {
            assert(b.contains(b[0]));
        }
        assert(a =~= b);
    } else if b.len() == 0 {
        assert(a.contains(a[0]));
    } else {
        assert(a.contains(a[0]));
        assert(b.contains(b[0]));
        let i = choose|i: int| 0 <= i < b.len() && b[i] == a[0];
        let j = choose|j: int| 0 <= j < a.len() && a[j] == b[0];
        if i > 0 {
            assert(seq_lt(b[0], b[i]));
            if j > 0 {
                assert(seq_lt(a[0], a[j]));
                lemma_lt_total(a[0], b[0]);
            }
        }
        assert(a[0] == b[0]) by {
            lemma_lt_irreflexive(a[0]);
            lemma_lt_total(a[0], b[0]);
            if i > 0 && j == 0 {
            }
            if j > 0 && i == 0 {
                assert(seq_lt(a[0], a[j]));
            }
        }
        let a2 = a.drop_first();
        let b2 = b.drop_first();
        assert forall|k: Seq<char>| a2.contains(k) <==> b2.contains(k) by {
            if a2.contains(k) {
                let x = choose|x: int| 0 <= x < a2.len() && a2[x] == k;
                assert(a[x + 1] == k);
                assert(seq_lt(a[0], k));
                assert(b.contains(k));
                let y = choose|y: int| 0 <= y < b.len() && b[y] == k;
                lemma_lt_irreflexive(k);
                if y == 0 {
                    assert(false);
                }
                assert(b2[y - 1] == k);
            }
            if b2.contains(k) {
                let y = choose|y: int| 0 <= y < b2.len() && b2[y] == k;
                assert(b[y + 1] == k);
                assert(seq_lt(b[0], k));
                assert(a.contains(k));
                let x = choose|x: int| 0 <= x < a.len() && a[x] == k;
                lemma_lt_irreflexive(k);
                if x == 0 {
                    assert(false);
                }
                assert(a2[x - 1] == k);
            }
        }
        lemma_sorted_same_members(a2, b2);
        assert(a =~= seq![a[0]] + a2);
        assert(b =~= seq![b[0]] + b2);
    }
}

pub open spec fn keys_of<V>(entries: Seq<(String, V)>) -> Seq<Seq<char>> {
    entries.map_values(|e: (String, V)| e.0@)
}

/// A string-keyed map with its keys in ascending order.
#[derive(Debug)]
pub struct StrMap<V> {
    entries: Vec<(String, V)>,
}

impl<V> StrMap<V> {
    /// The keys, in ascending order.
    pub closed spec fn keys(self) -> Seq<Seq<char>> {
        keys_of(self.entries@)
    }

    /// The values, in the order of their keys.
    pub closed spec fn vals(self) -> Seq<V> {
        self.entries@.map_values(|e: (String, V)| e.1)
    }

    #[verifier::type_invariant]
    closed spec fn inv(self) -> bool {
        strictly_sorted(self.keys())
    }

    /// The value under `k`, if any.
    pub open spec fn get_spec(self, k: Seq<char>) -> Option<V> {
        lookup(self.keys(), self.vals(), k)
    }

    /// The map as a mathematical map.
    pub open spec fn as_map(self) -> Map<Seq<char>, V> {
        Map::new(|k: Seq<char>| self.get_spec(k) is Some, |k: Seq<char>| self.get_spec(k)->0)
    }

    /// An empty map.
    pub fn new() -> (m: Self)
        ensures
            m.keys().len() == 0,
            m.vals().len() == 0,
            forall|k: Seq<char>| m.get_spec(k) is None,
            m.as_map() == Map::<Seq<char>, V>::empty(),
    {
        let m = StrMap { entries: Vec::new() };
        assert(m.keys() =~= Seq::empty());
        assert(m.as_map() =~= Map::<Seq<char>, V>::empty());
        m
    }

    pub fn len(&self) -> (n: usize)
        ensures
            n == self.keys().len(),
            n == self.vals().len(),
            strictly_sorted(self.keys()),
            forall|i: int| 0 <= i < self.keys().len() ==> self.get_spec(#[trigger] self.keys()[i]) == Some(self.vals()[i]),
            forall|q: Seq<char>| #[trigger] self.get_spec(q) is Some ==> exists|i: int| 0 <= i < self.keys().len() && self.keys()[i] == q,
    {
        proof {
            use_type_invariant(self);
            lemma_lookup_all(self.keys(), self.vals());
        }
        self.entries.len()
    }

    pub fn key_at(&self, i: usize) -> (k: &String)
        requires
            i < self.keys().len(),
        ensures
            k@ == self.keys()[i as int],
    {
        &self.entries[i].0
    }

    pub fn value_at(&self, i: usize) -> (v: &V)
        requires
            i < self.vals().len(),
        ensures
            *v == self.vals()[i as int],
    {
        &self.entries[i].1
    }

    /// Position of `k` among the keys, or where it would be inserted.
    fn position(&self, k: &str) -> (r: (usize, bool))
        ensures
            r.0 <= self.keys().len(),
            forall|i: int| 0 <= i < r.0 ==> seq_lt(#[trigger] self.keys()[i], k@),
            r.1 ==> r.0 < self.keys().len() && self.keys()[r.0 as int] == k@,
            !r.1 ==> forall|i: int| r.0 <= i < self.keys().len() ==> seq_lt(k@, #[trigger] self.keys()[i]),
    {
        proof {
            use_type_invariant(self);
        }
        let mut i: usize = 0;
        while i < self.entries.len()
            invariant
                i <= self.keys().len(),
                self.keys().len() == self.entries@.len(),
                strictly_sorted(self.keys()),
                forall|j: int| 0 <= j < i ==> seq_lt(#[trigger] self.keys()[j], k@),
            decreases self.entries.len() - i,
        {
            let key = &self.entries[i].0;
            assert(key@ == self.keys()[i as int]);
            if !str_lt(key.as_str(), k) {
                if str_eq(key.as_str(), k) {
                    return (i, true);
                }
                proof {
                    lemma_lt_total(key@, k@);
                    assert forall|j: int| i <= j < self.keys().len() implies seq_lt(k@, #[trigger] self.keys()[j]) by {
                        if j > i {
                            lemma_lt_transitive(k@, self.keys()[i as int], self.keys()[j]);
                        }
                    }
                }
                return (i, false);
            }
            i += 1;
        }
        (i, false)
    }

    /// The value stored under `k`.
    pub fn get(&self, k: &str) -> (r: Option<&V>)
        ensures
            match r {
                Some(v) => self.get_spec(k@) == Some(*v),
                None => self.get_spec(k@) is None,
            },
    {
        proof {
            use_type_invariant(self);
            lemma_lookup_all(self.keys(), self.vals());
        }
        let (i, found) = self.position(k);
        if found {
            Some(&self.entries[i].1)
        } else {
            proof {
                assert forall|j: int| 0 <= j < self.keys().len() implies self.keys()[j] != k@ by {
                    lemma_lt_irreflexive(k@);
                    if j < i {
                        assert(seq_lt(self.keys()[j], k@));
                    } else {
                        assert(seq_lt(k@, self.keys()[j]));
                    }
                }
            }
            None
        }
    }

    pub fn contains_key(&self, k: &str) -> (r: bool)
        ensures
            r == self.get_spec(k@) is Some,
    {
        match self.get(k) {
            Some(_) => true,
            None => false,
        }
    }

    /// Stores `v` under `k`, replacing any value already there.
    pub fn insert(&mut self, k: String, v: V)
        ensures
            forall|q: Seq<char>| #[trigger] final(self).get_spec(q) == if q == k@ {
                Some(v)
            } else {
                old(self).get_spec(q)
            },
            final(self).keys().len() == old(self).keys().len() + if old(self).get_spec(k@) is Some {
                0int
            } else {
                1int
            },
            final(self).as_map() == old(self).as_map().insert(k@, v),
    {
        proof {
            use_type_invariant(&*self);
        }
        let ghost ok = self.keys();
        let ghost ov = self.vals();
        let (i, found) = self.position(k.as_str());
        let ghost kv = k@;
        let mut entries: Vec<(String, V)> = Vec::new();
        std::mem::swap(&mut entries, &mut self.entries);
        if found {
            entries.set(i, (k, v));
            proof {
                assert(keys_of(entries@) =~= ok.update(i as int, kv));
            }
        } else {
            entries.insert(i, (k, v));
            proof {
                let nk = keys_of(entries@);
                assert(nk =~= ok.insert(i as int, kv));
                assert forall|a: int, b: int| 0 <= a < b < nk.len() implies seq_lt(nk[a], nk[b]) by {
                    if b < i {
                    } else if a < i && b == i {
                    } else if a < i && b > i {
                        assert(nk[b] == ok[b - 1]);
                        lemma_lt_transitive(nk[a], kv, nk[b]);
                    } else if a == i {
                        assert(nk[b] == ok[b - 1]);
                    } else {
                        assert(nk[a] == ok[a - 1]);
                        assert(nk[b] == ok[b - 1]);
                    }
                }
            }
        }
        self.entries = entries;
        proof {
            lemma_lookup_all(self.keys(), self.vals());
            if found {
                assert(self.keys() =~= ok.update(i as int, kv));
                assert(self.vals() =~= ov.update(i as int, v));
                assert forall|q: Seq<char>| #[trigger] self.get_spec(q) == if q == kv {
                    Some(v)
                } else {
                    lookup(ok, ov, q)
                } by {
                    if q == kv {
                        assert(self.keys()[i as int] == q);
                    } else if exists|j: int| 0 <= j < ok.len() && ok[j] == q {
                        let j = choose|j: int| 0 <= j < ok.len() && ok[j] == q;
                        lemma_lookup_at(ok, ov, j);
                        assert(self.keys()[j] == q);
                    } else {
                        assert forall|j: int| 0 <= j < self.keys().len() implies self.keys()[j] != q by {
                            if j != i {
                                assert(self.keys()[j] == ok[j]);
                            }
                        }
                    }
                }
                assert(lookup(ok, ov, kv) is Some) by {
                    lemma_lookup_at(ok, ov, i as int);
                }
            } else {
                assert(self.keys() =~= ok.insert(i as int, kv));
                assert(self.vals() =~= ov.insert(i as int, v));
                assert forall|j: int| 0 <= j < ok.len() implies ok[j] != kv by {
                    lemma_lt_irreflexive(kv);
                    if j < i {
                        assert(seq_lt(ok[j], kv));
                    } else {
                        assert(seq_lt(kv, ok[j]));
                    }
                }
                assert forall|q: Seq<char>| #[trigger] self.get_spec(q) == if q == kv {
                    Some(v)
                } else {
                    lookup(ok, ov, q)
                } by {
                    if q == kv {
                        assert(self.keys()[i as int] == q);
                    } else if exists|j: int| 0 <= j < ok.len() && ok[j] == q {
                        let j = choose|j: int| 0 <= j < ok.len() && ok[j] == q;
                        lemma_lookup_at(ok, ov, j);
                        if j < i {
                            assert(self.keys()[j] == q);
                            assert(self.vals()[j] == ov[j]);
                        } else {
                            assert(self.keys()[j + 1] == q);
                            assert(self.vals()[j + 1] == ov[j]);
                        }
                    } else {
                        assert forall|j: int| 0 <= j < self.keys().len() implies self.keys()[j] != q by {
                            if j < i {
                                assert(self.keys()[j] == ok[j]);
                            } else if j > i {
                                assert(self.keys()[j] == ok[j - 1]);
                            }
                        }
                    }
                }
            }
        }
        proof {
            assert(self.as_map() =~= old(self).as_map().insert(kv, v));
        }
    }
}

impl<V> StrMap<V> {
    /// The keys, in ascending order.
    pub fn key_list(&self) -> (r: Vec<String>)
        ensures
            r@.len() == self.keys().len(),
            forall|j: int| 0 <= j < r@.len() ==> #[trigger] r@[j]@ == self.keys()[j],
    {
        let mut r: Vec<String> = Vec::new();
        let mut i: usize = 0;
        while i < self.entries.len()
            invariant
                i <= self.entries@.len(),
                self.keys().len() == self.entries@.len(),
                r@.len() == i,
                forall|j: int| 0 <= j < i ==> #[trigger] r@[j]@ == self.keys()[j],
            decreases self.entries.len() - i,
        {
            let key = self.entries[i].0.clone();
            assert(key@ == self.keys()[i as int]);
            r.push(key);
            i += 1;
        }
        r
    }
}

impl<V: Clone> Clone for StrMap<V> {
    /// A copy with the same keys, each value cloned.
    fn clone(&self) -> (r: Self)
        ensures
            r.keys() == self.keys(),
    {
        proof {
            use_type_invariant(self);
        }
        let mut entries: Vec<(String, V)> = Vec::new();
        let mut i: usize = 0;
        while i < self.entries.len()
            invariant
                i <= self.entries@.len(),
                keys_of(entries@) == keys_of(self.entries@).take(i as int),
            decreases self.entries.len() - i,
        {
            let key = owned(self.entries[i].0.as_str());
            let value = self.entries[i].1.clone();
            let ghost before = keys_of(entries@);
            entries.push((key, value));
            assert(keys_of(entries@) =~= before.push(self.entries@[i as int].0@));
            assert(keys_of(self.entries@).take(i + 1) =~= keys_of(self.entries@).take(i as int).push(
                self.entries@[i as int].0@,
            ));
            i += 1;
        }
        assert(keys_of(self.entries@).take(i as int) =~= keys_of(self.entries@));
        StrMap { entries }
    }
}

} // verus!
