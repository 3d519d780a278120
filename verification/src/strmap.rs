//! A small map keyed by strings, kept as a list of entries with distinct
//! keys: the shape of the collection's storage maps.
use vstd::prelude::*;

verus! {

/// Entries `(key, value)`; no key occurs twice.
#[derive(Debug)]
pub struct StrMap<V> {
    pub entries: Vec<(String, V)>,
}

/// The position of key `k` in `e`, or -1.
pub open spec fn key_idx<V>(e: Seq<(String, V)>, k: Seq<char>) -> int {
    if exists|i: int| 0 <= i < e.len() && e[i].0@ == k {
        choose|i: int| 0 <= i < e.len() && e[i].0@ == k
    } else {
        -1
    }
}

/// No key occurs twice in `e`.
pub open spec fn keys_distinct<V>(e: Seq<(String, V)>) -> bool {
    forall|i: int, j: int| 0 <= i < e.len() && 0 <= j < e.len() && i != j ==> e[i].0@ != e[j].0@
}

impl<V> StrMap<V> {
    /// The map the entries stand for.
    pub open spec fn view(&self) -> Map<Seq<char>, V> {
        Map::new(|k: Seq<char>| key_idx(self.entries@, k) >= 0, |k: Seq<char>| self.entries@[key_idx(self.entries@, k)].1)
    }

    pub open spec fn wf(&self) -> bool {
        keys_distinct(self.entries@)
    }

    /// An empty map.
    pub fn new() -> (m: Self)
        ensures
            m.wf(),
            m.view() == Map::<Seq<char>, V>::empty(),
            m.entries@.len() == 0,
    {
        let m = StrMap { entries: Vec::new() };
        proof {
            assert(m.view() =~= Map::<Seq<char>, V>::empty());
        }
        m
    }

    /// The position of `k`.
    pub fn find(&self, k: &String) -> (r: Option<usize>)
        requires
            self.wf(),
        ensures
            r is None <==> !self.view().contains_key(k@),
            r matches Some(i) ==> i < self.entries@.len() && i == key_idx(self.entries@, k@) && self.entries@[i as int].0@ == k@,
    {
        let n = self.entries.len();
        for i in 0..n
            invariant
                n == self.entries@.len(),
                self.wf(),
                forall|j: int| 0 <= j < i ==> self.entries@[j].0@ != k@,
        {
            if self.entries[i].0 == *k {
                return Some(i);
            }
        }
        None
    }

    /// The value stored under `k`.
    pub fn get(&self, k: &String) -> (r: Option<&V>)
        requires
            self.wf(),
        ensures
            r is None <==> !self.view().contains_key(k@),
            r matches Some(v) ==> *v == self.view()[k@],
    {
        match self.find(k) {
            Some(i) => Some(&self.entries[i].1),
            None => None,
        }
    }

    /// Stores `v` under `k`, replacing any value there.
    pub fn insert(&mut self, k: String, v: V)
        requires
            old(self).wf(),
        ensures
            final(self).wf(),
            final(self).view() == old(self).view().insert(k@, v),
            old(self).view().contains_key(k@) ==> final(self).entries@.len() == old(self).entries@.len(),
            !old(self).view().contains_key(k@) ==> final(self).entries@.len() == old(self).entries@.len() + 1,
    {
        let ghost key = k@;
        let ghost before = self.entries@;
        match self.find(&k) {
            Some(i) => {
                self.entries.set(i, (k, v));
                proof {
                    assert forall|a: int, b: int| 0 <= a < self.entries@.len() && 0 <= b < self.entries@.len() && a != b
                        implies self.entries@[a].0@ != self.entries@[b].0@ by {
                        if a != i {
                            assert(self.entries@[a] == before[a]);
                        }
                        if b != i {
                            assert(self.entries@[b] == before[b]);
                        }
                    }
                    assert forall|q: Seq<char>| #[trigger] self.view().contains_key(q) <==> old(self).view().insert(key, v).contains_key(q) by {
                        if q == key {
                            assert(self.entries@[i as int].0@ == q);
                        } else if old(self).view().contains_key(q) {
                            let j = key_idx(before, q);
                            assert(self.entries@[j] == before[j]);
                        } else if self.view().contains_key(q) {
                            let j = key_idx(self.entries@, q);
                            if j != i {
                                assert(self.entries@[j] == before[j]);
                            }
                        }
                    }
                    assert forall|q: Seq<char>| #[trigger] self.view().contains_key(q) implies self.view()[q] == old(self).view().insert(key, v)[q] by {
                        let j = key_idx(self.entries@, q);
                        if q == key {
                            assert(self.entries@[i as int].0@ == q);
                            assert(j == i);
                        } else {
                            let j0 = key_idx(before, q);
                            assert(j != i);
                            assert(self.entries@[j] == before[j]);
                            assert(self.entries@[j0] == before[j0]);
                        }
                    }
                    assert(self.view() =~= old(self).view().insert(key, v));
                }
            },
            None => {
                self.entries.push((k, v));
                proof {
                    let n = before.len() as int;
                    assert forall|a: int, b: int| 0 <= a < self.entries@.len() && 0 <= b < self.entries@.len() && a != b
                        implies self.entries@[a].0@ != self.entries@[b].0@ by {
                        if a < n {
                            assert(self.entries@[a] == before[a]);
                        }
                        if b < n {
                            assert(self.entries@[b] == before[b]);
                        }
                    }
                    assert forall|q: Seq<char>| #[trigger] self.view().contains_key(q) <==> old(self).view().insert(key, v).contains_key(q) by {
                        if q == key {
                            assert(self.entries@[n].0@ == q);
                        } else if old(self).view().contains_key(q) {
                            let j = key_idx(before, q);
                            assert(self.entries@[j] == before[j]);
                        } else if self.view().contains_key(q) {
                            let j = key_idx(self.entries@, q);
                            if j < n {
                                assert(self.entries@[j] == before[j]);
                            }
                        }
                    }
                    assert forall|q: Seq<char>| #[trigger] self.view().contains_key(q) implies self.view()[q] == old(self).view().insert(key, v)[q] by {
                        let j = key_idx(self.entries@, q);
                        if q == key {
                            assert(self.entries@[n].0@ == q);
                            assert(j == n);
                        } else {
                            let j0 = key_idx(before, q);
                            assert(j < n);
                            assert(self.entries@[j] == before[j]);
                            assert(self.entries@[j0] == before[j0]);
                        }
                    }
                    assert(self.view() =~= old(self).view().insert(key, v));
                }
            },
        }
    }

    /// Replaces the value at position `i` by `v`, handing back the value
    /// that was there; the key stays where it was.
    pub fn replace_at(&mut self, i: usize, v: V) -> (prev: V)
        requires
            old(self).wf(),
            i < old(self).entries@.len(),
        ensures
            final(self).wf(),
            prev == old(self).entries@[i as int].1,
            final(self).entries@.len() == old(self).entries@.len(),
            final(self).entries@[i as int].0 == old(self).entries@[i as int].0,
            final(self).view() == old(self).view().insert(old(self).entries@[i as int].0@, v),
    {
        let ghost before = self.entries@;
        let ghost key = before[i as int].0@;
        let (k, prev) = self.entries.remove(i);
        self.entries.insert(i, (k, v));
        proof {
            assert(self.entries@ =~= before.update(i as int, (before[i as int].0, v)));
            assert forall|a: int, b: int| 0 <= a < self.entries@.len() && 0 <= b < self.entries@.len() && a != b
                implies self.entries@[a].0@ != self.entries@[b].0@ by {
                assert(self.entries@[a].0 == before[a].0);
                assert(self.entries@[b].0 == before[b].0);
            }
            assert(key_idx(before, key) == i) by {
                assert(before[i as int].0@ == key);
            }
            assert forall|q: Seq<char>| #[trigger] self.view().contains_key(q) <==> old(self).view().insert(key, v).contains_key(q) by {
                if self.view().contains_key(q) {
                    let j = key_idx(self.entries@, q);
                    assert(self.entries@[j].0 == before[j].0);
                }
                if old(self).view().contains_key(q) {
                    let j = key_idx(before, q);
                    assert(self.entries@[j].0 == before[j].0);
                }
                if q == key {
                    assert(self.entries@[i as int].0@ == q);
                }
            }
            assert forall|q: Seq<char>| #[trigger] self.view().contains_key(q) implies self.view()[q] == old(self).view().insert(key, v)[q] by {
                let j = key_idx(self.entries@, q);
                assert(self.entries@[j].0 == before[j].0);
                if q == key {
                    assert(j == i);
                } else {
                    let j0 = key_idx(before, q);
                    assert(j != i);
                    assert(self.entries@[j0].0 == before[j0].0);
                    assert(j0 == j);
                }
            }
            assert(self.view() =~= old(self).view().insert(key, v));
        }
        prev
    }

    /// Removes whatever is stored under `k`.
    pub fn remove(&mut self, k: &String)
        requires
            old(self).wf(),
        ensures
            final(self).wf(),
            final(self).view() == old(self).view().remove(k@),
            old(self).view().contains_key(k@) ==> final(self).entries@.len() == old(self).entries@.len() - 1,
            !old(self).view().contains_key(k@) ==> final(self).entries@.len() == old(self).entries@.len(),
    {
        let ghost before = self.entries@;
        match self.find(k) {
            Some(i) => {
                self.entries.remove(i);
                proof {
                    before.remove_ensures(i as int);
                    let after = self.entries@;
                    assert forall|a: int, b: int| 0 <= a < after.len() && 0 <= b < after.len() && a != b
                        implies after[a].0@ != after[b].0@ by {
                        let a0 = if a < i { a } else { a + 1 };
                        let b0 = if b < i { b } else { b + 1 };
                        assert(after[a] == before[a0]);
                        assert(after[b] == before[b0]);
                    }
                    assert forall|q: Seq<char>| #[trigger] self.view().contains_key(q) <==> old(self).view().remove(k@).contains_key(q) by {
                        if self.view().contains_key(q) {
                            let j = key_idx(after, q);
                            let j0 = if j < i { j } else { j + 1 };
                            assert(after[j] == before[j0]);
                            assert(j0 != i);
                        }
                        if old(self).view().remove(k@).contains_key(q) {
                            let j0 = key_idx(before, q);
                            assert(j0 != i);
                            let j = if j0 < i { j0 } else { j0 - 1 };
                            assert(after[j] == before[j0]);
                        }
                    }
                    assert forall|q: Seq<char>| #[trigger] self.view().contains_key(q) implies self.view()[q] == old(self).view().remove(k@)[q] by {
                        let j = key_idx(after, q);
                        let j0 = if j < i { j } else { j + 1 };
                        assert(after[j] == before[j0]);
                        assert(key_idx(before, q) == j0);
                    }
                    assert(self.view() =~= old(self).view().remove(k@));
                }
            },
            None => {
                proof {
                    assert(self.view() =~= old(self).view().remove(k@));
                }
            },
        }
    }
}

} // verus!
