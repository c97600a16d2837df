//! A map from strings to strings that keeps its keys in insertion order. It takes
//! the place of `HashMap<String, String>`: keys are unique, `insert` replaces the
//! value of a present key, and iteration follows the order of first insertion.
use vstd::prelude::*;
use crate::text::str_eq;

verus! {

/// The value stored under `k` in a list of pairs with unique keys.
pub open spec fn assoc_lookup(pairs: Seq<(Seq<char>, Seq<char>)>, k: Seq<char>) -> Option<Seq<char>>
    decreases pairs.len(),
{
    if pairs.len() == 0 {
        None
    } else if pairs[0].0 == k {
        Some(pairs[0].1)
    } else {
        assoc_lookup(pairs.drop_first(), k)
    }
}

pub open spec fn pair_view(p: (String, String)) -> (Seq<char>, Seq<char>) {
    (p.0@, p.1@)
}

pub struct StrMap {
    entries: Vec<(String, String)>,
}

impl StrMap {
    /// The entries as pairs of character sequences, in insertion order.
    pub closed spec fn pairs(&self) -> Seq<(Seq<char>, Seq<char>)> {
        self.entries@.map_values(|p: (String, String)| pair_view(p))
    }

    /// The keys, in insertion order.
    pub open spec fn keys(&self) -> Seq<Seq<char>> {
        self.pairs().map_values(|p: (Seq<char>, Seq<char>)| p.0)
    }

    /// The value stored under `k`.
    pub open spec fn get_spec(&self, k: Seq<char>) -> Option<Seq<char>> {
        assoc_lookup(self.pairs(), k)
    }

    pub proof fn lemma_lookup_none(pairs: Seq<(Seq<char>, Seq<char>)>, k: Seq<char>)
        ensures
            assoc_lookup(pairs, k) is None <==> forall|i: int| 0 <= i < pairs.len() ==> pairs[i].0 != k,
        decreases pairs.len(),
    {
        if pairs.len() > 0 {
            let rest = pairs.drop_first();
            Self::lemma_lookup_none(rest, k);
            if pairs[0].0 != k {
                assert((forall|i: int| 0 <= i < pairs.len() ==> pairs[i].0 != k) <==> (forall|i: int| 0 <= i < rest.len() ==> rest[i].0 != k)) by {
                    if forall|i: int| 0 <= i < rest.len() ==> rest[i].0 != k {
                        assert forall|i: int| 0 <= i < pairs.len() implies pairs[i].0 != k by {
                            if i > 0 {
                                assert(pairs[i] == rest[i - 1]);
                            }
                        }
                    }
                    if forall|i: int| 0 <= i < pairs.len() ==> pairs[i].0 != k {
                        assert forall|i: int| 0 <= i < rest.len() implies rest[i].0 != k by {
                            assert(pairs[i + 1] == rest[i]);
                        }
                    }
                }
            }
        }
    }

    pub proof fn lemma_lookup_first(pairs: Seq<(Seq<char>, Seq<char>)>, k: Seq<char>, i: int)
        requires
            0 <= i < pairs.len(),
            pairs[i].0 == k,
            forall|j: int| 0 <= j < i ==> pairs[j].0 != k,
        ensures
            assoc_lookup(pairs, k) == Some(pairs[i].1),
        decreases pairs.len(),
    {
        if i > 0 {
            let rest = pairs.drop_first();
            assert(pairs[0].0 != k);
            assert forall|j: int| 0 <= j < i - 1 implies rest[j].0 != k by {
                assert(rest[j] == pairs[j + 1]);
            }
            assert(rest[i - 1] == pairs[i]);
            Self::lemma_lookup_first(rest, k, i - 1);
        }
    }

    pub fn new() -> (m: Self)
        ensures
            forall|k: Seq<char>| m.get_spec(k) is None,
            m.keys() == Seq::<Seq<char>>::empty(),
    {
        let m = StrMap { entries: Vec::new() };
        proof {
            assert(m.keys() =~= Seq::<Seq<char>>::empty());
        }
        m
    }

    /// Number of keys.
    pub fn len(&self) -> (n: usize)
        ensures
            n == self.keys().len(),
    {
        self.entries.len()
    }

    pub fn is_empty(&self) -> (b: bool)
        ensures
            b == (self.keys().len() == 0),
    {
        self.entries.len() == 0
    }

    /// Position of `k` among the entries.
    fn index_of(&self, k: &str) -> (r: Option<usize>)
        ensures
            match r {
                Some(i) => i < self.keys().len() && self.keys()[i as int] == k@
                    && forall|j: int| 0 <= j < i ==> self.keys()[j] != k@,
                None => forall|i: int| 0 <= i < self.keys().len() ==> self.keys()[i] != k@,
            },
    {
        let mut i: usize = 0;
        while i < self.entries.len()
            invariant
                i <= self.entries@.len(),
                forall|j: int| 0 <= j < i ==> self.keys()[j] != k@,
            decreases self.entries@.len() - i,
        {
            if str_eq(self.entries[i].0.as_str(), k) {
                return Some(i);
            }
            i = i + 1;
        }
        None
    }

    /// The value stored under `k`.
    pub fn get(&self, k: &str) -> (r: Option<&str>)
        ensures
            match r {
                Some(v) => self.get_spec(k@) == Some(v@),
                None => self.get_spec(k@) is None,
            },
    {
        match self.index_of(k) {
            Some(i) => {
                proof {
                    assert(self.pairs()[i as int].0 == k@);
                    assert forall|j: int| 0 <= j < i implies self.pairs()[j].0 != k@ by {
                        assert(self.keys()[j] == self.pairs()[j].0);
                    }
                    Self::lemma_lookup_first(self.pairs(), k@, i as int);
                }
                Some(self.entries[i].1.as_str())
            },
            None => {
                proof {
                    assert forall|j: int| 0 <= j < self.pairs().len() implies self.pairs()[j].0 != k@ by {
                        assert(self.keys()[j] == self.pairs()[j].0);
                    }
                    Self::lemma_lookup_none(self.pairs(), k@);
                }
                None
            },
        }
    }

    /// Stores `v` under `k`, replacing any earlier value; a new key goes last.
    pub fn insert(&mut self, k: String, v: String)
        ensures
            forall|q: Seq<char>| #[trigger] final(self).get_spec(q) == if q == k@ { Some(v@) } else { old(self).get_spec(q) },
            old(self).keys().contains(k@) ==> final(self).keys() == old(self).keys(),
            !old(self).keys().contains(k@) ==> final(self).keys() == old(self).keys().push(k@),
    {
        let ghost old_pairs = self.pairs();
        let ghost kv = k@;
        let ghost vv = v@;
        match self.index_of(k.as_str()) {
            Some(i) => {
                let mut entries: Vec<(String, String)> = Vec::new();
                std::mem::swap(&mut entries, &mut self.entries);
                entries.set(i, (k, v));
                self.entries = entries;
                proof {
                    assert(self.pairs() =~= old_pairs.update(i as int, (kv, vv)));
                    assert(self.keys() =~= old(self).keys());
                    assert forall|j: int| 0 <= j < i implies old_pairs[j].0 != kv by {
                        assert(old(self).keys()[j] == old_pairs[j].0);
                    }
                    assert forall|q: Seq<char>| #[trigger] self.get_spec(q) == if q == kv { Some(vv) } else { old(self).get_spec(q) } by {
                        Self::lemma_update_other(old_pairs, i as int, (kv, vv), q);
                    }
                }
            },
            None => {
                let mut entries: Vec<(String, String)> = Vec::new();
                std::mem::swap(&mut entries, &mut self.entries);
                entries.push((k, v));
                self.entries = entries;
                proof {
                    assert(self.pairs() =~= old_pairs.push((kv, vv)));
                    assert(self.keys() =~= old(self).keys().push(kv));
                    assert(!old(self).keys().contains(kv));
                    assert forall|j: int| 0 <= j < old_pairs.len() implies old_pairs[j].0 != kv by {
                        assert(old(self).keys()[j] == old_pairs[j].0);
                    }
                    assert forall|q: Seq<char>| #[trigger] self.get_spec(q) == if q == kv { Some(vv) } else { old(self).get_spec(q) } by {
                        Self::lemma_push(old_pairs, (kv, vv), q);
                    }
                }
            },
        }
    }

    proof fn lemma_update_other(pairs: Seq<(Seq<char>, Seq<char>)>, i: int, p: (Seq<char>, Seq<char>), q: Seq<char>)
        requires
            0 <= i < pairs.len(),
            pairs[i].0 == p.0,
            forall|j: int| 0 <= j < i ==> pairs[j].0 != p.0,
        ensures
            assoc_lookup(pairs.update(i, p), q) == if q == p.0 { Some(p.1) } else { assoc_lookup(pairs, q) },
        decreases pairs.len(),
    {
        let u = pairs.update(i, p);
        if q == p.0 {
            assert(u[i] == p);
            assert forall|j: int| 0 <= j < i implies u[j].0 != q by {
                assert(u[j] == pairs[j]);
            }
            Self::lemma_lookup_first(u, q, i);
        } else if i == 0 {
            assert(u.drop_first() =~= pairs.drop_first());
        } else {
            let rest = pairs.drop_first();
            assert(u.drop_first() =~= rest.update(i - 1, p));
            assert forall|j: int| 0 <= j < i - 1 implies rest[j].0 != p.0 by {
                assert(rest[j] == pairs[j + 1]);
            }
            Self::lemma_update_other(rest, i - 1, p, q);
        }
    }

    proof fn lemma_push(pairs: Seq<(Seq<char>, Seq<char>)>, p: (Seq<char>, Seq<char>), q: Seq<char>)
        requires
            forall|j: int| 0 <= j < pairs.len() ==> pairs[j].0 != p.0,
        ensures
            assoc_lookup(pairs.push(p), q) == if q == p.0 { Some(p.1) } else { assoc_lookup(pairs, q) },
        decreases pairs.len(),
    {
        if pairs.len() == 0 {
            assert(pairs.push(p).drop_first() =~= pairs);
        } else {
            assert(pairs.push(p).drop_first() =~= pairs.drop_first().push(p));
            Self::lemma_push(pairs.drop_first(), p, q);
        }
    }

    /// The entries, in insertion order.
    pub fn entries(&self) -> (r: &Vec<(String, String)>)
        ensures
            r@.map_values(|p: (String, String)| pair_view(p)) == self.pairs(),
            r@.map_values(|p: (String, String)| p.0@) == self.keys(),
    {
        proof {
            assert(self.entries@.map_values(|p: (String, String)| p.0@) =~= self.keys());
        }
        &self.entries
    }
}

impl Clone for StrMap {
    fn clone(&self) -> (r: Self)
        ensures
            r.pairs() == self.pairs(),
    {
        let mut entries: Vec<(String, String)> = Vec::new();
        let mut i: usize = 0;
        while i < self.entries.len()
            invariant
                i <= self.entries@.len(),
                entries@.len() == i,
                self.pairs().len() == self.entries@.len(),
                entries@.map_values(|p: (String, String)| pair_view(p)) == self.pairs().take(i as int),
            decreases self.entries@.len() - i,
        {
            let e = &self.entries[i];
            let k = e.0.clone();
            let v = e.1.clone();
            proof {
                assert(entries@.len() == i);
                assert(k@ == self.entries@[i as int].0@);
                assert(v@ == self.entries@[i as int].1@);
            }
            entries.push((k, v));
            proof {
                assert(pair_view(entries@[i as int]) == self.pairs()[i as int]);
                assert(entries@.map_values(|p: (String, String)| pair_view(p)) =~= self.pairs().take(i + 1));
            }
            i = i + 1;
        }
        proof {
            assert(self.pairs().take(self.entries@.len() as int) =~= self.pairs());
        }
        StrMap { entries }
    }
}

} // verus!
