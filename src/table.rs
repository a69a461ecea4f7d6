use vstd::prelude::*;

verus! {

/// A map from texts to values, kept as a list of pairs with unique keys.
pub struct Table<V> {
    entries: Vec<(String, V)>,
    model: Ghost<Map<Seq<char>, V>>,
}

pub open spec fn key_seq<V>(entries: Seq<(String, V)>) -> Seq<Seq<char>> {
    entries.map_values(|e: (String, V)| e.0@)
}

pub open spec fn string_views(v: Seq<String>) -> Seq<Seq<char>> {
    v.map_values(|s: String| s@)
}

impl<V> View for Table<V> {
    type V = Map<Seq<char>, V>;

    closed spec fn view(&self) -> Map<Seq<char>, V> {
        self.model@
    }
}

impl<V> Table<V> {
    /// Keys are unique and the ghost map agrees with the entries.
    pub closed spec fn wf(&self) -> bool {
        &&& key_seq(self.entries@).no_duplicates()
        &&& self.model@.dom() == key_seq(self.entries@).to_set()
        &&& forall|i: int|
            0 <= i < self.entries@.len() ==> #[trigger] self.model@[self.entries@[i].0@]
                == self.entries@[i].1
    }

    pub fn new() -> (r: Table<V>)
        ensures
            r.wf(),
            r@ == Map::<Seq<char>, V>::empty(),
    {
        let r = Table { entries: Vec::new(), model: Ghost(Map::empty()) };
        assert(key_seq(r.entries@).to_set() =~= Set::empty());
        r
    }

    fn position(&self, key: &String) -> (r: Option<usize>)
        requires
            self.wf(),
        ensures
            match r {
                Some(i) => i < self.entries@.len() && self.entries@[i as int].0@ == key@,
                None => !self@.contains_key(key@),
            },
    {
        let mut i: usize = 0;
        while i < self.entries.len()
            invariant
                self.wf(),
                i <= self.entries@.len(),
                forall|j: int| 0 <= j < i ==> self.entries@[j].0@ != key@,
            decreases self.entries@.len() - i,
        {
            if self.entries[i].0 == *key {
                return Some(i);
            }
            i = i + 1;
        }
        proof {
            if self@.contains_key(key@) {
                assert(key_seq(self.entries@).contains(key@));
                let j = choose|j: int|
                    0 <= j < key_seq(self.entries@).len() && key_seq(self.entries@)[j] == key@;
                assert(self.entries@[j].0@ == key@);
            }
        }
        None
    }

    /// Binds `key` to `conn`, replacing an earlier binding of the same key.
    pub fn insert(&mut self, key: String, value: V)
        requires
            old(self).wf(),
        ensures
            final(self).wf(),
            final(self)@ == old(self)@.insert(key@, value),
    {
        let ghost k = key@;
        match self.position(&key) {
            Some(i) => {
                let ghost before = self.entries@;
                self.entries.set(i, (key, value));
                self.model = Ghost(self.model@.insert(k, value));
                proof {
                    assert(key_seq(self.entries@) =~= key_seq(before));
                    assert forall|j: int| 0 <= j < self.entries@.len() implies
                        #[trigger] self.model@[self.entries@[j].0@] == self.entries@[j].1 by {
                        if j != i {
                            assert(key_seq(before)[j] != key_seq(before)[i as int]);
                        }
                    }
                    assert(self.model@.dom() =~= key_seq(self.entries@).to_set()) by {
                        assert(key_seq(before)[i as int] == k);
                    }
                }
            },
            None => {
                let ghost before = self.entries@;
                self.entries.push((key, value));
                self.model = Ghost(self.model@.insert(k, value));
                proof {
                    assert(key_seq(self.entries@) =~= key_seq(before).push(k));
                    assert(!key_seq(before).contains(k));
                    assert(key_seq(self.entries@).to_set() =~= key_seq(before).to_set().insert(k))
                        by {
                        assert forall|x| key_seq(self.entries@).to_set().contains(x) <==>
                            key_seq(before).to_set().insert(k).contains(x) by {
                            if key_seq(before).contains(x) {
                                let j = choose|j: int| 0 <= j < key_seq(before).len()
                                    && key_seq(before)[j] == x;
                                assert(key_seq(self.entries@)[j] == x);
                            }
                            if key_seq(self.entries@).contains(x) && x != k {
                                let j = choose|j: int| 0 <= j < key_seq(self.entries@).len()
                                    && key_seq(self.entries@)[j] == x;
                                assert(key_seq(before)[j] == x);
                            }
                            if x == k {
                                assert(key_seq(self.entries@)[before.len() as int] == k);
                            }
                        }
                    }
                    assert forall|j: int| 0 <= j < self.entries@.len() implies
                        #[trigger] self.model@[self.entries@[j].0@] == self.entries@[j].1 by {
                        if j < before.len() {
                            assert(key_seq(before)[j] != k);
                        }
                    }
                }
            },
        }
    }

    /// Removes the entry of a key, if there is one.
    pub fn remove(&mut self, key: &str)
        requires
            old(self).wf(),
        ensures
            final(self).wf(),
            final(self)@ == old(self)@.remove(key@),
    {
        let key = key.to_owned();
        match self.position(&key) {
            Some(i) => {
                let ghost before = self.entries@;
                let ghost k = key@;
                self.entries.remove(i);
                self.model = Ghost(self.model@.remove(k));
                proof {
                    assert(key_seq(self.entries@) =~= key_seq(before).remove(i as int));
                    assert forall|x| key_seq(self.entries@).to_set().contains(x) <==>
                        key_seq(before).to_set().remove(k).contains(x) by {
                        if key_seq(before).contains(x) && x != k {
                            let j = choose|j: int| 0 <= j < key_seq(before).len()
                                && key_seq(before)[j] == x;
                            if j < i {
                                assert(key_seq(self.entries@)[j] == x);
                            } else {
                                assert(j != i);
                                assert(key_seq(self.entries@)[j - 1] == x);
                            }
                        }
                        if key_seq(self.entries@).contains(x) {
                            let j = choose|j: int| 0 <= j < key_seq(self.entries@).len()
                                && key_seq(self.entries@)[j] == x;
                            if j < i {
                                assert(key_seq(before)[j] == x);
                                assert(key_seq(before)[j] != key_seq(before)[i as int]);
                            } else {
                                assert(key_seq(before)[j + 1] == x);
                                assert(key_seq(before)[j + 1] != key_seq(before)[i as int]);
                            }
                        }
                    }
                    assert(self.model@.dom() =~= key_seq(self.entries@).to_set());
                    assert forall|j: int| 0 <= j < self.entries@.len() implies
                        #[trigger] self.model@[self.entries@[j].0@] == self.entries@[j].1 by {
                        if j < i {
                            assert(self.entries@[j] == before[j]);
                            assert(key_seq(before)[j] != key_seq(before)[i as int]);
                        } else {
                            assert(self.entries@[j] == before[j + 1]);
                            assert(key_seq(before)[j + 1] != key_seq(before)[i as int]);
                        }
                    }
                }
            },
            None => {
                assert(self.model@.remove(key@) =~= self.model@);
            },
        }
    }

    /// The value bound to a key.
    pub fn get(&self, key: &str) -> (r: Option<&V>)
        requires
            self.wf(),
        ensures
            match r {
                Some(v) => self@.contains_key(key@) && *v == self@[key@],
                None => !self@.contains_key(key@),
            },
    {
        let key = key.to_owned();
        match self.position(&key) {
            Some(i) => {
                assert(key_seq(self.entries@)[i as int] == key@);
                Some(&self.entries[i].1)
            },
            None => None,
        }
    }

    /// The keys, each exactly once.
    pub fn keys(&self) -> (r: Vec<String>)
        requires
            self.wf(),
        ensures
            string_views(r@).no_duplicates(),
            string_views(r@).to_set() == self@.dom(),
    {
        let mut r: Vec<String> = Vec::new();
        let mut i: usize = 0;
        while i < self.entries.len()
            invariant
                self.wf(),
                i <= self.entries@.len(),
                string_views(r@) =~= key_seq(self.entries@).subrange(0, i as int),
            decreases self.entries@.len() - i,
        {
            r.push(self.entries[i].0.clone());
            proof {
                assert(key_seq(self.entries@).subrange(0, i + 1) =~= key_seq(
                    self.entries@,
                ).subrange(0, i as int).push(self.entries@[i as int].0@));
            }
            i = i + 1;
        }
        assert(key_seq(self.entries@).subrange(0, i as int) =~= key_seq(self.entries@));
        r
    }

    /// The values, one for each key.
    pub fn values(&self) -> (r: Vec<V>) where V: Copy
        requires
            self.wf(),
        ensures
            r@.len() == self@.dom().len(),
            forall|c: V|
                r@.contains(c) <==> exists|k: Seq<char>| #[trigger]
                    self@.contains_key(k) && self@[k] == c,
            exists|ks: Seq<Seq<char>>|
                #![trigger ks.to_set()]
                ks.len() == r@.len() && ks.no_duplicates() && ks.to_set() == self@.dom() && forall|
                    i: int,
                | 0 <= i < r@.len() ==> self@[#[trigger] ks[i]] == r@[i],
    {
        let mut r: Vec<V> = Vec::new();
        let mut i: usize = 0;
        while i < self.entries.len()
            invariant
                self.wf(),
                i <= self.entries@.len(),
                r@.len() == i,
                forall|j: int| 0 <= j < i ==> r@[j] == self.entries@[j].1,
            decreases self.entries@.len() - i,
        {
            r.push(self.entries[i].1);
            i = i + 1;
        }
        proof {
            key_seq(self.entries@).unique_seq_to_set();
            let ks = key_seq(self.entries@);
            assert forall|i: int| 0 <= i < r@.len() implies self@[#[trigger] ks[i]] == r@[i] by {
                assert(ks[i] == self.entries@[i].0@);
            }
            assert(ks.len() == r@.len() && ks.no_duplicates() && ks.to_set() == self@.dom());
        }
        assert forall|c: V| r@.contains(c) <==> exists|k: Seq<char>| #[trigger]
            self@.contains_key(k) && self@[k] == c by {
            if r@.contains(c) {
                let j = choose|j: int| 0 <= j < r@.len() && r@[j] == c;
                let k = self.entries@[j].0@;
                assert(key_seq(self.entries@)[j] == k);
                assert(self@.contains_key(k) && self@[k] == c);
            }
            if exists|k: Seq<char>| #[trigger] self@.contains_key(k) && self@[k] == c {
                let k = choose|k: Seq<char>| #[trigger] self@.contains_key(k) && self@[k] == c;
                assert(key_seq(self.entries@).to_set().contains(k));
                let j = choose|j: int| 0 <= j < key_seq(self.entries@).len()
                    && key_seq(self.entries@)[j] == k;
                assert(self@[self.entries@[j].0@] == self.entries@[j].1);
                assert(r@[j] == c);
            }
        }
        r
    }
}

} // verus!
