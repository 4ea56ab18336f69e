//! A verified association map from string keys to values.
//!
//! The lending core keeps every piece of per-pool and per-user state in maps
//! keyed by stable string identifiers, mirroring a key-value store in which
//! each entity kind occupies a disjoint key space. [`KvMap`] is that store's
//! in-memory form: a pair of parallel vectors with unique keys, abstracted to
//! a [`Map`] from key views to values.

use vstd::prelude::*;

verus! {

/// A map from string keys to `V`, viewed as `Map<Seq<char>, V>`.
///
/// Lookups scan linearly; the expected number of pools and positions per
/// user is small, so no ordering or hashing is required.
pub struct KvMap<V> {
    keys: Vec<String>,
    vals: Vec<V>,
    contents: Ghost<Map<Seq<char>, V>>,
}

impl<V> View for KvMap<V> {
    type V = Map<Seq<char>, V>;

    closed spec fn view(&self) -> Map<Seq<char>, V> {
        self.contents@
    }
}

/// Some stored key reads as `k`.
pub(crate) open spec fn seq_has_key(keys: Seq<String>, k: Seq<char>) -> bool {
    exists|i: int| 0 <= i < keys.len() && keys[i]@ == k
}

impl<V> KvMap<V> {
    /// Keys pair up with values, no key repeats, and the ghost map holds
    /// exactly the stored associations.
    pub closed spec fn wf(self) -> bool {
        &&& self.keys@.len() == self.vals@.len()
        &&& forall|i: int, j: int|
            0 <= i < j < self.keys@.len() ==> self.keys@[i]@ != self.keys@[j]@
        &&& forall|i: int|
            0 <= i < self.keys@.len() ==> self.contents@.contains_key(#[trigger] self.keys@[i]@)
                && self.contents@[self.keys@[i]@] == self.vals@[i]
        &&& forall|k: Seq<char>|
            #[trigger] self.contents@.contains_key(k) ==> seq_has_key(self.keys@, k)
    }

    /// The empty map.
    pub fn new() -> (r: Self)
        ensures
            r.wf(),
            r@ == Map::<Seq<char>, V>::empty(),
    {
        KvMap { keys: Vec::new(), vals: Vec::new(), contents: Ghost(Map::empty()) }
    }

    /// Index of `key` among the stored keys, if present.
    fn find(&self, key: &String) -> (r: Option<usize>)
        requires
            self.wf(),
        ensures
            match r {
                Some(i) => i < self.keys@.len() && self.keys@[i as int]@ == key@,
                None => !self@.contains_key(key@) && !seq_has_key(self.keys@, key@),
            },
    {
        let mut j: usize = 0;
        while j < self.keys.len()
            invariant
                self.wf(),
                j <= self.keys@.len(),
                forall|jj: int| 0 <= jj < j ==> self.keys@[jj]@ != key@,
            decreases self.keys@.len() - j,
        {
            if self.keys[j] == *key {
                return Some(j);
            }
            j = j + 1;
        }
        None
    }

    /// Whether a value is stored under `key`.
    pub fn has(&self, key: &String) -> (r: bool)
        requires
            self.wf(),
        ensures
            r == self@.contains_key(key@),
    {
        match self.find(key) {
            Some(_) => true,
            None => false,
        }
    }

    /// The value stored under `key`, if any.
    pub fn get(&self, key: &String) -> (r: Option<&V>)
        requires
            self.wf(),
        ensures
            match r {
                Some(v) => self@.contains_key(key@) && *v == self@[key@],
                None => !self@.contains_key(key@),
            },
    {
        match self.find(key) {
            Some(i) => Some(&self.vals[i]),
            None => None,
        }
    }

    /// Store `val` under `key`, replacing any previous value.
    pub fn set(&mut self, key: String, val: V)
        requires
            old(self).wf(),
        ensures
            final(self).wf(),
            final(self)@ == old(self)@.insert(key@, val),
    {
        let found = self.find(&key);
        proof {
            self.contents@ = self.contents@.insert(key@, val);
        }
        match found {
            Some(i) => {
                self.vals[i] = val;
                proof {
                    assert forall|k: Seq<char>| #[trigger] self.contents@.contains_key(k)
                        implies seq_has_key(self.keys@, k) by {
                        if k == key@ {
                            assert(self.keys@[i as int]@ == k);
                        } else {
                            assert(old(self).contents@.contains_key(k));
                        }
                    }
                }
            },
            None => {
                self.keys.push(key);
                self.vals.push(val);
                proof {
                    let n = old(self).keys@.len() as int;
                    assert forall|k: Seq<char>| #[trigger] self.contents@.contains_key(k)
                        implies seq_has_key(self.keys@, k) by {
                        if k == self.keys@[n]@ {
                            assert(self.keys@[n]@ == k);
                        } else {
                            assert(old(self).contents@.contains_key(k));
                            let w = choose|i: int|
                                0 <= i < n && old(self).keys@[i]@ == k;
                            assert(self.keys@[w]@ == k);
                        }
                    }
                }
            },
        }
    }

    /// Drop the value stored under `key`, if any.
    pub fn remove(&mut self, key: &String)
        requires
            old(self).wf(),
        ensures
            final(self).wf(),
            final(self)@ == old(self)@.remove(key@),
    {
        let found = self.find(key);
        match found {
            Some(i) => {
                proof {
                    self.contents@ = self.contents@.remove(key@);
                }
                self.keys.remove(i);
                self.vals.remove(i);
                proof {
                    let ghost old_keys = old(self).keys@;
                    assert forall|k: Seq<char>| #[trigger] self.contents@.contains_key(k)
                        implies seq_has_key(self.keys@, k) by {
                        let w = choose|j: int| 0 <= j < old_keys.len() && old_keys[j]@ == k;
                        if w < i {
                            assert(self.keys@[w]@ == k);
                        } else {
                            assert(self.keys@[w - 1]@ == k);
                        }
                    }
                }
            },
            None => {
                proof {
                    assert(self@ =~= old(self)@.remove(key@));
                }
            },
        }
    }
}

/// Some stored key pair reads as `k`.
pub(crate) open spec fn seq_has_pair(
    firsts: Seq<String>,
    seconds: Seq<String>,
    k: (Seq<char>, Seq<char>),
) -> bool {
    exists|i: int| 0 <= i < firsts.len() && firsts[i]@ == k.0 && seconds[i]@ == k.1
}

/// A map keyed by a pair of strings, viewed as
/// `Map<(Seq<char>, Seq<char>), V>`. The position records are kept under
/// such composite (user, pool) keys.
pub struct KvPairMap<V> {
    firsts: Vec<String>,
    seconds: Vec<String>,
    vals: Vec<V>,
    contents: Ghost<Map<(Seq<char>, Seq<char>), V>>,
}

impl<V> View for KvPairMap<V> {
    type V = Map<(Seq<char>, Seq<char>), V>;

    closed spec fn view(&self) -> Map<(Seq<char>, Seq<char>), V> {
        self.contents@
    }
}

impl<V> KvPairMap<V> {
    /// Key halves pair up with values, no key pair repeats, and the ghost
    /// map holds exactly the stored associations.
    pub closed spec fn wf(self) -> bool {
        &&& self.firsts@.len() == self.vals@.len()
        &&& self.seconds@.len() == self.vals@.len()
        &&& forall|i: int, j: int|
            0 <= i < j < self.firsts@.len() ==> !(self.firsts@[i]@ == self.firsts@[j]@
                && self.seconds@[i]@ == self.seconds@[j]@)
        &&& forall|i: int|
            #![trigger self.firsts@[i]]
            0 <= i < self.firsts@.len() ==> self.contents@.contains_key(
                (self.firsts@[i]@, self.seconds@[i]@),
            ) && self.contents@[(self.firsts@[i]@, self.seconds@[i]@)] == self.vals@[i]
        &&& forall|k: (Seq<char>, Seq<char>)|
            #[trigger] self.contents@.contains_key(k) ==> seq_has_pair(
                self.firsts@,
                self.seconds@,
                k,
            )
    }

    /// The empty map.
    pub fn new() -> (r: Self)
        ensures
            r.wf(),
            r@ == Map::<(Seq<char>, Seq<char>), V>::empty(),
    {
        KvPairMap {
            firsts: Vec::new(),
            seconds: Vec::new(),
            vals: Vec::new(),
            contents: Ghost(Map::empty()),
        }
    }

    /// Index of the pair `(first, second)` among the stored keys, if present.
    fn find(&self, first: &String, second: &String) -> (r: Option<usize>)
        requires
            self.wf(),
        ensures
            match r {
                Some(i) => i < self.firsts@.len() && self.firsts@[i as int]@ == first@
                    && self.seconds@[i as int]@ == second@,
                None => !self@.contains_key((first@, second@)) && !seq_has_pair(
                    self.firsts@,
                    self.seconds@,
                    (first@, second@),
                ),
            },
    {
        let mut j: usize = 0;
        while j < self.firsts.len()
            invariant
                self.wf(),
                j <= self.firsts@.len(),
                forall|jj: int|
                    0 <= jj < j ==> !(self.firsts@[jj]@ == first@ && self.seconds@[jj]@
                        == second@),
            decreases self.firsts@.len() - j,
        {
            if self.firsts[j] == *first && self.seconds[j] == *second {
                return Some(j);
            }
            j = j + 1;
        }
        None
    }

    /// Whether a value is stored under `(first, second)`.
    pub fn has(&self, first: &String, second: &String) -> (r: bool)
        requires
            self.wf(),
        ensures
            r == self@.contains_key((first@, second@)),
    {
        match self.find(first, second) {
            Some(_) => true,
            None => false,
        }
    }

    /// The value stored under `(first, second)`, if any.
    pub fn get(&self, first: &String, second: &String) -> (r: Option<&V>)
        requires
            self.wf(),
        ensures
            match r {
                Some(v) => self@.contains_key((first@, second@)) && *v == self@[(first@, second@)],
                None => !self@.contains_key((first@, second@)),
            },
    {
        match self.find(first, second) {
            Some(i) => Some(&self.vals[i]),
            None => None,
        }
    }

    /// Store `val` under `(first, second)`, replacing any previous value.
    pub fn set(&mut self, first: String, second: String, val: V)
        requires
            old(self).wf(),
        ensures
            final(self).wf(),
            final(self)@ == old(self)@.insert((first@, second@), val),
    {
        let found = self.find(&first, &second);
        proof {
            self.contents@ = self.contents@.insert((first@, second@), val);
        }
        match found {
            Some(i) => {
                self.vals[i] = val;
                proof {
                    assert forall|k: (Seq<char>, Seq<char>)| #[trigger]
                        self.contents@.contains_key(k) implies seq_has_pair(
                        self.firsts@,
                        self.seconds@,
                        k,
                    ) by {
                        if k == (first@, second@) {
                            assert(self.firsts@[i as int]@ == k.0 && self.seconds@[i as int]@
                                == k.1);
                        } else {
                            assert(old(self).contents@.contains_key(k));
                        }
                    }
                }
            },
            None => {
                self.firsts.push(first);
                self.seconds.push(second);
                self.vals.push(val);
                proof {
                    let n = old(self).firsts@.len() as int;
                    assert forall|k: (Seq<char>, Seq<char>)| #[trigger]
                        self.contents@.contains_key(k) implies seq_has_pair(
                        self.firsts@,
                        self.seconds@,
                        k,
                    ) by {
                        if k == (self.firsts@[n]@, self.seconds@[n]@) {
                            assert(self.firsts@[n]@ == k.0 && self.seconds@[n]@ == k.1);
                        } else {
                            assert(old(self).contents@.contains_key(k));
                            let w = choose|i: int|
                                0 <= i < n && old(self).firsts@[i]@ == k.0
                                    && old(self).seconds@[i]@ == k.1;
                            assert(self.firsts@[w]@ == k.0 && self.seconds@[w]@ == k.1);
                        }
                    }
                }
            },
        }
    }

    /// Drop the value stored under `(first, second)`, if any.
    pub fn remove(&mut self, first: &String, second: &String)
        requires
            old(self).wf(),
        ensures
            final(self).wf(),
            final(self)@ == old(self)@.remove((first@, second@)),
    {
        let found = self.find(first, second);
        match found {
            Some(i) => {
                proof {
                    self.contents@ = self.contents@.remove((first@, second@));
                }
                self.firsts.remove(i);
                self.seconds.remove(i);
                self.vals.remove(i);
                proof {
                    let ghost of = old(self).firsts@;
                    let ghost os = old(self).seconds@;
                    assert forall|k: (Seq<char>, Seq<char>)| #[trigger]
                        self.contents@.contains_key(k) implies seq_has_pair(
                        self.firsts@,
                        self.seconds@,
                        k,
                    ) by {
                        let w = choose|j: int|
                            0 <= j < of.len() && of[j]@ == k.0 && os[j]@ == k.1;
                        if w < i {
                            assert(self.firsts@[w]@ == k.0 && self.seconds@[w]@ == k.1);
                        } else {
                            assert(self.firsts@[w - 1]@ == k.0 && self.seconds@[w - 1]@ == k.1);
                        }
                    }
                }
            },
            None => {
                proof {
                    assert(self@ =~= old(self)@.remove((first@, second@)));
                }
            },
        }
    }
}

} // verus!
