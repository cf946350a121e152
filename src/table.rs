//! A table of records keyed by identifier, held in increasing key order.
use vstd::prelude::*;

use crate::order::{lemma_lex_irreflexive, lemma_lex_total, lemma_lex_transitive, lex_lt, str_lt, strictly_sorted};

verus! {

/// Entries `(key, value)` in strictly increasing key order.
pub struct Table<V> {
    entries: Vec<(String, V)>,
}

impl<V> Table<V> {
    /// The keys, in the order the table holds them.
    pub closed spec fn keys(&self) -> Seq<Seq<char>> {
        self.entries@.map_values(|e: (String, V)| e.0@)
    }

    /// The entries, keys taken by their characters.
    pub closed spec fn pairs(&self) -> Seq<(Seq<char>, V)> {
        self.entries@.map_values(|e: (String, V)| (e.0@, e.1))
    }

    pub closed spec fn wf(&self) -> bool {
        strictly_sorted(self.keys())
    }

    closed spec fn has(&self, k: Seq<char>) -> bool {
        exists|i: int| 0 <= i < self.entries@.len() && self.entries@[i].0@ == k
    }

    /// What the table maps each key to.
    closed spec fn pos_of(&self, k: Seq<char>) -> int {
        choose|n: int| 0 <= n < self.entries@.len() && self.entries@[n].0@ == k
    }

    closed spec fn value_of(&self, k: Seq<char>) -> V {
        self.entries@[self.pos_of(k)].1
    }

    pub closed spec fn view(&self) -> Map<Seq<char>, V> {
        Map::new(|k: Seq<char>| self.has(k), |k: Seq<char>| self.value_of(k))
    }

    proof fn lemma_at(&self, i: int)
        requires
            self.wf(),
            0 <= i < self.entries@.len(),
        ensures
            self@.contains_key(self.entries@[i].0@),
            self@[self.entries@[i].0@] == self.entries@[i].1,
    {
        let k = self.entries@[i].0@;
        assert(self.keys()[i] == k);
        assert(self.has(k));
        let j = self.pos_of(k);
        assert(self.keys()[j] == k);
        if j < i {
            lemma_lex_irreflexive(k);
        } else if i < j {
            lemma_lex_irreflexive(k);
        }
        assert(j == i);
        assert(self.value_of(k) == self.entries@[i].1);
    }

    proof fn lemma_pairs(&self)
        ensures
            self.pairs().len() == self.entries@.len(),
            self.keys().len() == self.entries@.len(),
            forall|i: int|
                0 <= i < self.entries@.len() ==> #[trigger] self.pairs()[i] == (
                self.entries@[i].0@,
                self.entries@[i].1,
            ) && self.keys()[i] == self.entries@[i].0@,
    {
    }

    /// The entries are what the table maps, each key once, in increasing order.
    pub proof fn lemma_view(&self)
        requires
            self.wf(),
        ensures
            forall|i: int|
                0 <= i < self.pairs().len() ==> self@.contains_key(#[trigger] self.pairs()[i].0)
                    && self@[self.pairs()[i].0] == self.pairs()[i].1,
            forall|k: Seq<char>|
                #[trigger] self@.contains_key(k) ==> exists|i: int|
                    0 <= i < self.pairs().len() && #[trigger] self.pairs()[i].0 == k,
            forall|i: int, j: int|
                0 <= i < j < self.pairs().len() ==> lex_lt(#[trigger] self.pairs()[i].0, #[trigger] self.pairs()[j].0),
    {
        self.lemma_pairs();
        assert forall|i: int| 0 <= i < self.pairs().len() implies self@.contains_key(#[trigger] self.pairs()[i].0)
            && self@[self.pairs()[i].0] == self.pairs()[i].1 by {
            self.lemma_at(i);
        }
        assert forall|k: Seq<char>| #[trigger] self@.contains_key(k) implies exists|i: int|
            0 <= i < self.pairs().len() && #[trigger] self.pairs()[i].0 == k by {
            let j = self.pos_of(k);
            assert(self.pairs()[j].0 == k);
        }
        assert forall|i: int, j: int| 0 <= i < j < self.pairs().len() implies lex_lt(
            #[trigger] self.pairs()[i].0,
            #[trigger] self.pairs()[j].0,
        ) by {
            assert(self.keys()[i] == self.pairs()[i].0);
            assert(self.keys()[j] == self.pairs()[j].0);
        }
    }

    pub fn new() -> (r: Self)
        ensures
            r.wf(),
            r@ == Map::<Seq<char>, V>::empty(),
            r.pairs().len() == 0,
    {
        let r = Table { entries: Vec::new() };
        assert(r@ =~= Map::<Seq<char>, V>::empty());
        r
    }

    pub fn len(&self) -> (r: usize)
        ensures
            r == self.pairs().len(),
    {
        self.entries.len()
    }

    pub fn key_at(&self, i: usize) -> (r: &String)
        requires
            i < self.pairs().len(),
        ensures
            r@ == self.pairs()[i as int].0,
    {
        &self.entries[i].0
    }

    pub fn value_at(&self, i: usize) -> (r: &V)
        requires
            i < self.pairs().len(),
        ensures
            *r == self.pairs()[i as int].1,
    {
        &self.entries[i].1
    }

    /// The position of `key`, or where it would go.
    fn find(&self, key: &str) -> (r: (bool, usize))
        requires
            self.wf(),
        ensures
            r.1 <= self.entries@.len(),
            r.0 ==> r.1 < self.entries@.len() && self.entries@[r.1 as int].0@ == key@,
            !r.0 ==> forall|i: int| 0 <= i < r.1 ==> lex_lt(#[trigger] self.keys()[i], key@),
            !r.0 ==> forall|i: int| r.1 <= i < self.entries@.len() ==> lex_lt(key@, #[trigger] self.keys()[i]),
    {
        let n = self.entries.len();
        let mut i: usize = 0;
        while i < n
            invariant
                n == self.entries@.len(),
                i <= n,
                self.wf(),
                forall|j: int| 0 <= j < i ==> lex_lt(#[trigger] self.keys()[j], key@),
            decreases n - i,
        {
            let k = &self.entries[i].0;
            assert(self.keys()[i as int] == k@);
            if str_lt(k.as_str(), key) {
                i = i + 1;
            } else {
                if str_lt(key, k.as_str()) {
                    assert forall|j: int| i <= j < n implies lex_lt(key@, #[trigger] self.keys()[j]) by {
                        if j > i {
                            lemma_lex_transitive(key@, self.keys()[i as int], self.keys()[j]);
                        }
                    }
                    return (false, i);
                } else {
                    proof {
                        if k@ != key@ {
                            lemma_lex_total(k@, key@);
                        }
                    }
                    return (true, i);
                }
            }
        }
        (false, i)
    }

    pub fn contains(&self, key: &str) -> (r: bool)
        requires
            self.wf(),
        ensures
            r == self@.contains_key(key@),
    {
        let (found, i) = self.find(key);
        proof {
            if found {
                self.lemma_at(i as int);
            } else if self.has(key@) {
                let j = self.pos_of(key@);
                assert(self.keys()[j] == key@);
                lemma_lex_irreflexive(key@);
            }
        }
        found
    }

    pub fn get(&self, key: &str) -> (r: Option<&V>)
        requires
            self.wf(),
        ensures
            r is Some <==> self@.contains_key(key@),
            r is Some ==> *r->0 == self@[key@],
    {
        let (found, i) = self.find(key);
        if found {
            proof {
                self.lemma_at(i as int);
            }
            Some(&self.entries[i].1)
        } else {
            proof {
                if self.has(key@) {
                    let j = self.pos_of(key@);
                    assert(self.keys()[j] == key@);
                    lemma_lex_irreflexive(key@);
                }
            }
            None
        }
    }

    /// Maps `key` to `value`, replacing what it was mapped to.
    pub fn insert(&mut self, key: String, value: V)
        requires
            old(self).wf(),
        ensures
            final(self).wf(),
            final(self)@ == old(self)@.insert(key@, value),
    {
        let ghost k = key@;
        let ghost v = value;
        let (found, i) = self.find(key.as_str());
        let ghost pre = *self;
        if found {
            self.entries.set(i, (key, value));
            proof {
                assert(pre.keys()[i as int] == k);
                assert(self.keys() =~= pre.keys());
                assert forall|q: Seq<char>| #[trigger] self@.contains_key(q) == pre@.insert(k, v).contains_key(q)
                    && (self@.contains_key(q) ==> self@[q] == pre@.insert(k, v)[q]) by {
                    if q == k {
                        self.lemma_at(i as int);
                    } else {
                        if self.has(q) {
                            let j = self.pos_of(q);
                            self.lemma_at(j);
                            pre.lemma_at(j);
                        }
                        if pre.has(q) {
                            let j = pre.pos_of(q);
                            assert(self.entries@[j].0@ == q);
                        }
                    }
                }
                assert(self@.dom() =~= pre@.insert(k, v).dom());
                assert(self@ =~= pre@.insert(k, v));
            }
        } else {
            self.entries.insert(i, (key, value));
            proof {
                assert(self.keys() =~= pre.keys().insert(i as int, k));
                assert forall|a: int, b: int| 0 <= a < b < self.keys().len() implies lex_lt(
                    #[trigger] self.keys()[a],
                    #[trigger] self.keys()[b],
                ) by {
                    if b < i {
                    } else if a < i && b == i {
                    } else if a < i && b > i {
                        lemma_lex_transitive(self.keys()[a], k, self.keys()[b]);
                    } else if a == i {
                        assert(self.keys()[b] == pre.keys()[b - 1]);
                    } else {
                        assert(self.keys()[a] == pre.keys()[a - 1]);
                        assert(self.keys()[b] == pre.keys()[b - 1]);
                    }
                }
                assert forall|q: Seq<char>| #[trigger] self@.contains_key(q) == pre@.insert(k, v).contains_key(q)
                    && (self@.contains_key(q) ==> self@[q] == pre@.insert(k, v)[q]) by {
                    if q == k {
                        self.lemma_at(i as int);
                    } else {
                        if self.has(q) {
                            let j = self.pos_of(q);
                            self.lemma_at(j);
                            if j < i {
                                pre.lemma_at(j);
                            } else {
                                assert(j != i);
                                pre.lemma_at(j - 1);
                            }
                        }
                        if pre.has(q) {
                            let j = pre.pos_of(q);
                            if j < i {
                                assert(self.entries@[j].0@ == q);
                            } else {
                                assert(self.entries@[j + 1].0@ == q);
                            }
                        }
                    }
                }
                assert(self@.dom() =~= pre@.insert(k, v).dom());
                assert(self@ =~= pre@.insert(k, v));
            }
        }
    }

    /// Removes `key`, handing back what it was mapped to.
    pub fn remove(&mut self, key: &str) -> (r: Option<V>)
        requires
            old(self).wf(),
        ensures
            final(self).wf(),
            r is Some <==> old(self)@.contains_key(key@),
            r is Some ==> r->0 == old(self)@[key@],
            final(self)@ == old(self)@.remove(key@),
    {
        let ghost k = key@;
        let ghost pre = *self;
        let (found, i) = self.find(key);
        if found {
            proof {
                self.lemma_at(i as int);
            }
            let (_, v) = self.entries.remove(i);
            proof {
                assert(pre.keys()[i as int] == k);
                assert(self.keys() =~= pre.keys().remove(i as int));
                assert forall|a: int, b: int| 0 <= a < b < self.keys().len() implies lex_lt(
                    #[trigger] self.keys()[a],
                    #[trigger] self.keys()[b],
                ) by {
                    if a < i && b >= i {
                        assert(self.keys()[b] == pre.keys()[b + 1]);
                    } else if a >= i {
                        assert(self.keys()[a] == pre.keys()[a + 1]);
                        assert(self.keys()[b] == pre.keys()[b + 1]);
                    }
                }
                assert forall|q: Seq<char>| #[trigger] self@.contains_key(q) == pre@.remove(k).contains_key(q)
                    && (self@.contains_key(q) ==> self@[q] == pre@.remove(k)[q]) by {
                    if self.has(q) {
                        let j = self.pos_of(q);
                        self.lemma_at(j);
                        if j < i {
                            pre.lemma_at(j);
                            assert(pre.keys()[j] == q);
                            assert(lex_lt(q, k));
                        } else {
                            pre.lemma_at(j + 1);
                            assert(pre.keys()[j + 1] == q);
                            assert(lex_lt(k, q));
                        }
                        if q == k {
                            lemma_lex_irreflexive(k);
                        }
                    }
                    if pre.has(q) && q != k {
                        let j = pre.pos_of(q);
                        assert(j != i);
                        if j < i {
                            assert(self.entries@[j].0@ == q);
                        } else {
                            assert(self.entries@[j - 1].0@ == q);
                        }
                    }
                }
                assert(self@ =~= pre@.remove(k));
            }
            Some(v)
        } else {
            proof {
                if pre.has(k) {
                    let j = pre.pos_of(k);
                    assert(pre.keys()[j] == k);
                    lemma_lex_irreflexive(k);
                }
                assert(self@ =~= pre@.remove(k));
            }
            None
        }
    }
}

} // verus!
