//! Association tables that keep the order in which keys were first added.
//!
//! A table never holds a key twice. `IdMap` is keyed by surface or session numbers,
//! `NameMap` by output names; both are seen as mathematical maps by their contracts.
use crate::text::str_eq;
use vstd::prelude::*;

verus! {

/// Values keyed by an integer.
pub struct IdMap<V> {
    pub entries: Vec<(u64, V)>,
}

impl<V> View for IdMap<V> {
    type V = Map<u64, V>;

    open spec fn view(&self) -> Map<u64, V> {
        Map::new(|k: u64| self.has(k), |k: u64| self.entries@[self.position(k)].1)
    }
}

impl<V> IdMap<V> {
    /// Some entry has the key `k`.
    pub open spec fn has(&self, k: u64) -> bool {
        exists|i: int| 0 <= i < self.entries@.len() && self.entries@[i].0 == k
    }

    /// Where the key `k` stands, if it is there at all.
    pub open spec fn position(&self, k: u64) -> int {
        choose|i: int| 0 <= i < self.entries@.len() && self.entries@[i].0 == k
    }

    /// No key occurs twice.
    pub open spec fn wf(&self) -> bool {
        forall|i: int, j: int|
            0 <= i < j < self.entries@.len() ==> self.entries@[i].0 != self.entries@[j].0
    }

    /// The keys in table order.
    pub open spec fn keys(&self) -> Seq<u64> {
        self.entries@.map_values(|e: (u64, V)| e.0)
    }

    pub proof fn lemma_entry(&self, i: int)
        requires
            self.wf(),
            0 <= i < self.entries@.len(),
        ensures
            self@.contains_key(self.entries@[i].0),
            self@[self.entries@[i].0] == self.entries@[i].1,
            self.position(self.entries@[i].0) == i,
    {
        let k = self.entries@[i].0;
        assert(self.has(k));
        let p = self.position(k);
        assert(0 <= p < self.entries@.len() && self.entries@[p].0 == k);
        assert(p == i);
    }

    pub fn new() -> (r: Self)
        ensures
            r.wf(),
            r@ == Map::<u64, V>::empty(),
            r.entries@.len() == 0,
    {
        let r = IdMap { entries: Vec::new() };
        assert(r@ =~= Map::<u64, V>::empty());
        r
    }

    /// The index of the entry with the key `k`.
    pub fn find(&self, k: u64) -> (r: Option<usize>)
        requires
            self.wf(),
        ensures
            match r {
                Some(i) => i < self.entries@.len() && self.entries@[i as int].0 == k
                    && self@.contains_key(k) && self@[k] == self.entries@[i as int].1,
                None => !self@.contains_key(k),
            },
    {
        let mut i: usize = 0;
        while i < self.entries.len()
            invariant
                i <= self.entries@.len(),
                self.wf(),
                forall|j: int| 0 <= j < i ==> self.entries@[j].0 != k,
            decreases self.entries@.len() - i,
        {
            if self.entries[i].0 == k {
                proof {
                    self.lemma_entry(i as int);
                }
                return Some(i);
            }
            i = i + 1;
        }
        None
    }

    pub fn contains(&self, k: u64) -> (r: bool)
        requires
            self.wf(),
        ensures
            r == self@.contains_key(k),
    {
        self.find(k).is_some()
    }

    pub fn get(&self, k: u64) -> (r: Option<&V>)
        requires
            self.wf(),
        ensures
            match r {
                Some(v) => self@.contains_key(k) && *v == self@[k],
                None => !self@.contains_key(k),
            },
    {
        match self.find(k) {
            Some(i) => Some(&self.entries[i].1),
            None => None,
        }
    }

    /// Replaces the value of `k`, or adds `k` at the end.
    pub fn insert(&mut self, k: u64, v: V)
        requires
            old(self).wf(),
        ensures
            final(self).wf(),
            final(self)@ == old(self)@.insert(k, v),
    {
        let ghost before = *self;
        match self.find(k) {
            Some(i) => {
                self.entries.set(i, (k, v));
                proof {
                    self.lemma_entry(i as int);
                    assert forall|q: u64|
                        #![trigger self.has(q)]
                        #![trigger before.has(q)]
                        #![trigger self@[q]]
                        q != k implies self.has(q) == before.has(q) && (before.has(q) ==> self@[q]
                        == before@[q]) by {
                        if before.has(q) {
                            let p = before.position(q);
                            assert(self.entries@[p].0 == q);
                            before.lemma_entry(p);
                            self.lemma_entry(p);
                        }
                        if self.has(q) {
                            let p = self.position(q);
                            assert(before.entries@[p].0 == q);
                        }
                    }
                    assert(self@ =~= before@.insert(k, v));
                }
            },
            None => {
                self.entries.push((k, v));
                proof {
                    assert forall|i: int| 0 <= i < before.entries@.len() implies before.entries@[i].0
                        != k by {
                        if before.entries@[i].0 == k {
                            assert(before.has(k));
                            assert(before@.contains_key(k));
                        }
                    }
                    self.lemma_entry(self.entries@.len() - 1);
                    assert forall|q: u64|
                        #![trigger self.has(q)]
                        #![trigger before.has(q)]
                        #![trigger self@[q]]
                        q != k implies self.has(q) == before.has(q) && (before.has(q) ==> self@[q]
                        == before@[q]) by {
                        if before.has(q) {
                            let p = before.position(q);
                            assert(self.entries@[p].0 == q);
                            before.lemma_entry(p);
                            self.lemma_entry(p);
                        }
                        if self.has(q) {
                            let p = self.position(q);
                            assert(before.entries@[p].0 == q);
                        }
                    }
                    assert(self@ =~= before@.insert(k, v));
                }
            },
        }
    }

    /// Replaces the value at a place.
    pub fn set_at(&mut self, i: usize, v: V)
        requires
            old(self).wf(),
            i < old(self).entries@.len(),
        ensures
            final(self).wf(),
            final(self)@ == old(self)@.insert(old(self).entries@[i as int].0, v),
            final(self).entries@ == old(self).entries@.update(
                i as int,
                (old(self).entries@[i as int].0, v),
            ),
    {
        let ghost before = *self;
        let k: u64 = self.entries[i].0;
        self.entries.set(i, (k, v));
        proof {
            assert(self.wf());
            self.lemma_entry(i as int);
            assert forall|q: u64|
                #![trigger self.has(q)]
                #![trigger before.has(q)]
                #![trigger self@[q]]
                q != k implies self.has(q) == before.has(q) && (before.has(q) ==> self@[q]
                == before@[q]) by {
                if before.has(q) {
                    let p = before.position(q);
                    assert(self.entries@[p].0 == q);
                    before.lemma_entry(p);
                    self.lemma_entry(p);
                }
                if self.has(q) {
                    let p = self.position(q);
                    assert(before.entries@[p].0 == q);
                }
            }
            assert(self@ =~= before@.insert(k, v));
        }
    }

    /// Removes `k` and hands out its value.
    pub fn remove(&mut self, k: u64) -> (r: Option<V>)
        requires
            old(self).wf(),
        ensures
            final(self).wf(),
            final(self)@ == old(self)@.remove(k),
            match r {
                Some(v) => old(self)@.contains_key(k) && v == old(self)@[k],
                None => !old(self)@.contains_key(k) && *final(self) == *old(self),
            },
    {
        let ghost before = *self;
        match self.find(k) {
            Some(i) => {
                let e = self.entries.remove(i);
                proof {
                    assert forall|q: u64|
                        #![trigger self.has(q)]
                        #![trigger before.has(q)]
                        #![trigger self@[q]]
                        q != k implies self.has(q) == before.has(q) && (before.has(q) ==> self@[q]
                        == before@[q]) by {
                        if before.has(q) {
                            let p = before.position(q);
                            let p2 = if p < i {
                                p
                            } else {
                                p - 1
                            };
                            assert(self.entries@[p2].0 == q);
                            before.lemma_entry(p);
                            self.lemma_entry(p2);
                        }
                        if self.has(q) {
                            let p = self.position(q);
                            let p2 = if p < i {
                                p
                            } else {
                                p + 1
                            };
                            assert(before.entries@[p2].0 == q);
                        }
                    }
                    assert(!self.has(k)) by {
                        if self.has(k) {
                            let p = self.position(k);
                            let p2 = if p < i {
                                p
                            } else {
                                p + 1
                            };
                            assert(before.entries@[p2].0 == k);
                        }
                    }
                    assert(self@ =~= before@.remove(k));
                }
                Some(e.1)
            },
            None => {
                assert(self@ =~= before@.remove(k));
                None
            },
        }
    }
}

/// Values keyed by a name.
pub struct NameMap<V> {
    pub entries: Vec<(String, V)>,
}

impl<V> View for NameMap<V> {
    type V = Map<Seq<char>, V>;

    open spec fn view(&self) -> Map<Seq<char>, V> {
        Map::new(|k: Seq<char>| self.has(k), |k: Seq<char>| self.entries@[self.position(k)].1)
    }
}

impl<V> NameMap<V> {
    /// Some entry has the name `k`.
    pub open spec fn has(&self, k: Seq<char>) -> bool {
        exists|i: int| 0 <= i < self.entries@.len() && #[trigger] self.entries@[i].0@ == k
    }

    /// Where the name `k` stands, if it is there at all.
    pub open spec fn position(&self, k: Seq<char>) -> int {
        choose|i: int| 0 <= i < self.entries@.len() && #[trigger] self.entries@[i].0@ == k
    }

    /// No name occurs twice.
    pub open spec fn wf(&self) -> bool {
        forall|i: int, j: int|
            0 <= i < j < self.entries@.len() ==> (#[trigger] self.entries@[i]).0@ != (
            #[trigger] self.entries@[j]).0@
    }

    /// The names in table order.
    pub open spec fn keys(&self) -> Seq<Seq<char>> {
        self.entries@.map_values(|e: (String, V)| e.0@)
    }

    pub proof fn lemma_entry(&self, i: int)
        requires
            self.wf(),
            0 <= i < self.entries@.len(),
        ensures
            self@.contains_key(self.entries@[i].0@),
            self@[self.entries@[i].0@] == self.entries@[i].1,
            self.position(self.entries@[i].0@) == i,
    {
        let k = self.entries@[i].0@;
        assert(self.has(k));
        let p = self.position(k);
        assert(0 <= p < self.entries@.len() && self.entries@[p].0@ == k);
        assert(p == i);
    }

    pub fn new() -> (r: Self)
        ensures
            r.wf(),
            r@ == Map::<Seq<char>, V>::empty(),
            r.entries@.len() == 0,
    {
        let r = NameMap { entries: Vec::new() };
        assert(r@ =~= Map::<Seq<char>, V>::empty());
        r
    }

    /// The index of the entry with the name `k`.
    pub fn find(&self, k: &str) -> (r: Option<usize>)
        requires
            self.wf(),
        ensures
            match r {
                Some(i) => i < self.entries@.len() && self.entries@[i as int].0@ == k@
                    && self@.contains_key(k@) && self@[k@] == self.entries@[i as int].1
                    && self.position(k@) == i,
                None => !self@.contains_key(k@),
            },
    {
        let mut i: usize = 0;
        while i < self.entries.len()
            invariant
                i <= self.entries@.len(),
                self.wf(),
                forall|j: int| 0 <= j < i ==> (#[trigger] self.entries@[j]).0@ != k@,
            decreases self.entries@.len() - i,
        {
            if str_eq(self.entries[i].0.as_str(), k) {
                proof {
                    self.lemma_entry(i as int);
                }
                return Some(i);
            }
            i = i + 1;
        }
        None
    }

    pub fn contains(&self, k: &str) -> (r: bool)
        requires
            self.wf(),
        ensures
            r == self@.contains_key(k@),
    {
        self.find(k).is_some()
    }

    pub fn get(&self, k: &str) -> (r: Option<&V>)
        requires
            self.wf(),
        ensures
            match r {
                Some(v) => self@.contains_key(k@) && *v == self@[k@],
                None => !self@.contains_key(k@),
            },
    {
        match self.find(k) {
            Some(i) => Some(&self.entries[i].1),
            None => None,
        }
    }

    /// The entries after `k` was given the value `v`: changed in place, or added at the end.
    pub open spec fn entries_with(&self, k: String, v: V) -> Seq<(String, V)> {
        if self.has(k@) {
            self.entries@.update(self.position(k@), (self.entries@[self.position(k@)].0, v))
        } else {
            self.entries@.push((k, v))
        }
    }

    /// A value that was put under a name is found there.
    pub proof fn lemma_entries_with(before: NameMap<V>, after: NameMap<V>, k: String, v: V)
        requires
            before.wf(),
            after.wf(),
            after.entries@ == before.entries_with(k, v),
        ensures
            after@.contains_key(k@),
            after@[k@] == v,
    {
        let i = if before.has(k@) {
            before.position(k@)
        } else {
            before.entries@.len() as int
        };
        after.lemma_entry(i);
    }

    /// Replaces the value of `k`, or adds `k` at the end.
    pub fn insert(&mut self, k: &String, v: V)
        requires
            old(self).wf(),
        ensures
            final(self).wf(),
            final(self)@ == old(self)@.insert(k@, v),
            final(self).entries@ == old(self).entries_with(*k, v),
    {
        let ghost before = *self;
        match self.find(k.as_str()) {
            Some(i) => {
                let name = self.entries[i].0.clone();
                self.entries.set(i, (name, v));
                proof {
                    self.lemma_entry(i as int);
                    assert forall|q: Seq<char>|
                        #![trigger self.has(q)]
                        #![trigger before.has(q)]
                        #![trigger self@[q]]
                        q != k@ implies self.has(q) == before.has(q) && (before.has(q) ==> self@[q]
                        == before@[q]) by {
                        if before.has(q) {
                            let p = before.position(q);
                            assert(self.entries@[p].0@ == q);
                            before.lemma_entry(p);
                            self.lemma_entry(p);
                        }
                        if self.has(q) {
                            let p = self.position(q);
                            assert(before.entries@[p].0@ == q);
                        }
                    }
                    assert(self@ =~= before@.insert(k@, v));
                }
            },
            None => {
                self.entries.push((k.clone(), v));
                proof {
                    assert forall|i: int| 0 <= i < before.entries@.len() implies (
                    #[trigger] before.entries@[i]).0@ != k@ by {
                        if before.entries@[i].0@ == k@ {
                            assert(before.has(k@));
                            assert(before@.contains_key(k@));
                        }
                    }
                    self.lemma_entry(self.entries@.len() - 1);
                    assert forall|q: Seq<char>|
                        #![trigger self.has(q)]
                        #![trigger before.has(q)]
                        #![trigger self@[q]]
                        q != k@ implies self.has(q) == before.has(q) && (before.has(q) ==> self@[q]
                        == before@[q]) by {
                        if before.has(q) {
                            let p = before.position(q);
                            assert(self.entries@[p].0@ == q);
                            before.lemma_entry(p);
                            self.lemma_entry(p);
                        }
                        if self.has(q) {
                            let p = self.position(q);
                            assert(before.entries@[p].0@ == q);
                        }
                    }
                    assert(self@ =~= before@.insert(k@, v));
                }
            },
        }
    }

    /// Removes `k` and hands out its value.
    pub fn remove(&mut self, k: &str) -> (r: Option<V>)
        requires
            old(self).wf(),
        ensures
            final(self).wf(),
            final(self)@ == old(self)@.remove(k@),
            old(self)@.contains_key(k@) ==> final(self).entries@ == old(self).entries@.remove(
                old(self).position(k@),
            ),
            match r {
                Some(v) => old(self)@.contains_key(k@) && v == old(self)@[k@],
                None => !old(self)@.contains_key(k@) && *final(self) == *old(self),
            },
    {
        let ghost before = *self;
        match self.find(k) {
            Some(i) => {
                let e = self.entries.remove(i);
                proof {
                    assert forall|q: Seq<char>|
                        #![trigger self.has(q)]
                        #![trigger before.has(q)]
                        #![trigger self@[q]]
                        q != k@ implies self.has(q) == before.has(q) && (before.has(q) ==> self@[q]
                        == before@[q]) by {
                        if before.has(q) {
                            let p = before.position(q);
                            let p2 = if p < i {
                                p
                            } else {
                                p - 1
                            };
                            assert(self.entries@[p2].0@ == q);
                            before.lemma_entry(p);
                            self.lemma_entry(p2);
                        }
                        if self.has(q) {
                            let p = self.position(q);
                            let p2 = if p < i {
                                p
                            } else {
                                p + 1
                            };
                            assert(before.entries@[p2].0@ == q);
                        }
                    }
                    assert(!self.has(k@)) by {
                        if self.has(k@) {
                            let p = self.position(k@);
                            let p2 = if p < i {
                                p
                            } else {
                                p + 1
                            };
                            assert(before.entries@[p2].0@ == k@);
                        }
                    }
                    assert(self@ =~= before@.remove(k@));
                }
                Some(e.1)
            },
            None => {
                assert(self@ =~= before@.remove(k@));
                None
            },
        }
    }
}

} // verus!
