use vstd::prelude::*;

verus! {

/// A store of values keyed by identifier text. Each key appears once; the
/// store is seen as a map from key text to the value's view.
pub struct Registry<V: View> {
    keys: Vec<String>,
    vals: Vec<V>,
    model: Ghost<Map<Seq<char>, V::V>>,
}

impl<V: View> View for Registry<V> {
    type V = Map<Seq<char>, V::V>;

    closed spec fn view(&self) -> Map<Seq<char>, V::V> {
        self.model@
    }
}

impl<V: View> Registry<V> {
    /// The keys are pairwise distinct and the model maps each key to the
    /// value stored beside it, and nothing else.
    pub closed spec fn wf(&self) -> bool {
        &&& self.keys.len() == self.vals.len()
        &&& forall|i: int, j: int|
            0 <= i < j < self.keys.len() ==> self.keys@[i]@ != self.keys@[j]@
        &&& forall|i: int|
            0 <= i < self.keys.len() ==> #[trigger] self.model@.contains_key(self.keys@[i]@)
                && self.model@[self.keys@[i]@] == self.vals@[i]@
        &&& forall|k: Seq<char>|
            #[trigger] self.model@.contains_key(k) ==> exists|i: int|
                0 <= i < self.keys.len() && self.keys@[i]@ == k
    }

    pub fn new() -> (r: Registry<V>)
        ensures
            r.wf(),
            r@ == Map::<Seq<char>, V::V>::empty(),
    {
        Registry { keys: Vec::new(), vals: Vec::new(), model: Ghost(Map::empty()) }
    }

    pub fn len(&self) -> (r: usize)
        requires
            self.wf(),
        ensures
            r as nat == self@.len(),
    {
        proof { self.lemma_len(); }
        self.keys.len()
    }

    proof fn lemma_len(&self)
        requires
            self.wf(),
        ensures
            self@.len() == self.keys.len(),
    {
        let keyset = Set::new(|i: int| 0 <= i < self.keys.len());
        let f = |i: int| self.keys@[i]@;
        assert(keyset =~= vstd::set_lib::set_int_range(0, self.keys.len() as int));
        vstd::set_lib::lemma_int_range(0, self.keys.len() as int);
        assert forall|a: int, b: int| keyset.contains(a) && keyset.contains(b) && f(a) == f(b)
            implies a == b by {
            if a < b {
                assert(self.keys@[a]@ != self.keys@[b]@);
            } else if b < a {
                assert(self.keys@[b]@ != self.keys@[a]@);
            }
        }
        vstd::set_lib::lemma_map_size(keyset, keyset.map(f), f);
        assert(keyset.map(f) =~= self.model@.dom()) by {
            assert forall|k: Seq<char>| self.model@.dom().contains(k) implies keyset.map(f).contains(k) by {
                let i = choose|i: int| 0 <= i < self.keys.len() && self.keys@[i]@ == k;
                assert(keyset.contains(i));
            }
        }
    }

    /// Position of `key` in the store.
    fn find(&self, key: &String) -> (r: Option<usize>)
        requires
            self.wf(),
        ensures
            r is None ==> !self@.contains_key(key@),
            r matches Some(i) ==> i < self.keys.len() && self.keys@[i as int]@ == key@,
    {
        let mut i: usize = 0;
        while i < self.keys.len()
            invariant
                self.wf(),
                i <= self.keys.len(),
                forall|j: int| 0 <= j < i ==> self.keys@[j]@ != key@,
            decreases self.keys.len() - i,
        {
            if self.keys[i] == *key {
                return Some(i);
            }
            i = i + 1;
        }
        proof {
            if self@.contains_key(key@) {
                let j = choose|j: int| 0 <= j < self.keys.len() && self.keys@[j]@ == key@;
                assert(self.keys@[j]@ != key@);
            }
        }
        None
    }

    pub fn contains(&self, key: &String) -> (r: bool)
        requires
            self.wf(),
        ensures
            r == self@.contains_key(key@),
    {
        match self.find(key) {
            Some(_) => true,
            None => false,
        }
    }

    pub fn get(&self, key: &String) -> (r: Option<&V>)
        requires
            self.wf(),
        ensures
            r is None <==> !self@.contains_key(key@),
            r matches Some(v) ==> v@ == self@[key@],
    {
        match self.find(key) {
            Some(i) => {
                assert(self.model@.contains_key(self.keys@[i as int]@));
                Some(&self.vals[i])
            },
            None => None,
        }
    }

    /// Stores `val` under `key`, replacing what was there.
    pub fn insert(&mut self, key: String, val: V)
        requires
            old(self).wf(),
        ensures
            final(self).wf(),
            final(self)@ == old(self)@.insert(key@, val@),
    {
        let ghost k = key@;
        match self.find(&key) {
            Some(i) => {
                let ghost vv = val@;
                self.vals.set(i, val);
                self.model = Ghost(self.model@.insert(k, vv));
                assert forall|j: int|
                    0 <= j < self.keys.len() implies #[trigger] self.model@.contains_key(self.keys@[j]@)
                        && self.model@[self.keys@[j]@] == self.vals@[j]@ by {
                    if j != i {
                        assert(old(self).model@.contains_key(old(self).keys@[j]@));
                        assert(self.keys@[j]@ != k);
                    }
                }
                assert forall|k2: Seq<char>| #[trigger] self.model@.contains_key(k2) implies exists|j: int|
                    0 <= j < self.keys.len() && self.keys@[j]@ == k2 by {
                    if k2 != k {
                        assert(old(self).model@.contains_key(k2));
                        let j = choose|j: int| 0 <= j < old(self).keys.len() && old(self).keys@[j]@ == k2;
                        assert(self.keys@[j]@ == k2);
                    } else {
                        assert(self.keys@[i as int]@ == k2);
                    }
                }
            },
            None => {
                self.keys.push(key);
                self.vals.push(val);
                self.model = Ghost(self.model@.insert(k, val@));
                assert forall|i: int|
                    0 <= i < self.keys.len() implies #[trigger] self.model@.contains_key(self.keys@[i]@)
                        && self.model@[self.keys@[i]@] == self.vals@[i]@ by {
                    if i < self.keys.len() - 1 {
                        assert(old(self).model@.contains_key(old(self).keys@[i]@));
                    }
                }
                assert forall|k2: Seq<char>| #[trigger] self.model@.contains_key(k2) implies exists|j: int|
                    0 <= j < self.keys.len() && self.keys@[j]@ == k2 by {
                    if k2 != k {
                        assert(old(self).model@.contains_key(k2));
                        let j = choose|j: int| 0 <= j < old(self).keys.len() && old(self).keys@[j]@ == k2;
                        assert(self.keys@[j]@ == k2);
                    } else {
                        assert(self.keys@[self.keys.len() - 1]@ == k2);
                    }
                }
            },
        }
    }

    /// The keys in the store, each once.
    pub fn keys(&self) -> (r: Vec<String>)
        requires
            self.wf(),
        ensures
            r.len() == self@.len(),
            forall|i: int| 0 <= i < r.len() ==> #[trigger] self@.contains_key(r@[i]@),
            forall|k: Seq<char>| #[trigger] self@.contains_key(k) ==> exists|i: int|
                0 <= i < r.len() && r@[i]@ == k,
    {
        proof { self.lemma_len(); }
        let mut r: Vec<String> = Vec::new();
        let mut i: usize = 0;
        while i < self.keys.len()
            invariant
                self.wf(),
                i <= self.keys.len(),
                r.len() == i,
                forall|j: int| 0 <= j < i ==> r@[j] == self.keys@[j],
            decreases self.keys.len() - i,
        {
            r.push(self.keys[i].clone());
            i = i + 1;
        }
        assert forall|j: int| 0 <= j < r.len() implies #[trigger] self@.contains_key(r@[j]@) by {
            assert(self.model@.contains_key(self.keys@[j]@));
        }
        assert forall|k: Seq<char>| #[trigger] self@.contains_key(k) implies exists|j: int|
            0 <= j < r.len() && r@[j]@ == k by {
            let j = choose|j: int| 0 <= j < self.keys.len() && self.keys@[j]@ == k;
            assert(r@[j]@ == k);
        }
        r
    }

    /// Takes `key` out of the store, handing back its value if it was there.
    pub fn remove(&mut self, key: &String) -> (r: Option<V>)
        requires
            old(self).wf(),
        ensures
            final(self).wf(),
            final(self)@ == old(self)@.remove(key@),
            r is None <==> !old(self)@.contains_key(key@),
            r matches Some(v) ==> v@ == old(self)@[key@],
    {
        match self.find(key) {
            Some(i) => {
                let ghost k = key@;
                assert(self.model@.contains_key(self.keys@[i as int]@));
                self.keys.remove(i);
                let v = self.vals.remove(i);
                self.model = Ghost(self.model@.remove(k));
                assert forall|a: int, b: int|
                    0 <= a < b < self.keys.len() implies self.keys@[a]@ != self.keys@[b]@ by {
                    let oa = if a < i { a } else { a + 1 };
                    let ob = if b < i { b } else { b + 1 };
                    assert(self.keys@[a] == old(self).keys@[oa]);
                    assert(self.keys@[b] == old(self).keys@[ob]);
                }
                assert forall|a: int|
                    0 <= a < self.keys.len() implies #[trigger] self.model@.contains_key(self.keys@[a]@)
                        && self.model@[self.keys@[a]@] == self.vals@[a]@ by {
                    let oa = if a < i { a } else { a + 1 };
                    assert(self.keys@[a] == old(self).keys@[oa]);
                    assert(self.vals@[a] == old(self).vals@[oa]);
                    assert(old(self).model@.contains_key(old(self).keys@[oa]@));
                    assert(old(self).keys@[oa]@ != k);
                }
                assert forall|k2: Seq<char>| #[trigger] self.model@.contains_key(k2) implies exists|j: int|
                    0 <= j < self.keys.len() && self.keys@[j]@ == k2 by {
                    assert(old(self).model@.contains_key(k2));
                    let j = choose|j: int| 0 <= j < old(self).keys.len() && old(self).keys@[j]@ == k2;
                    assert(j != i);
                    let nj = if j < i { j } else { j - 1 };
                    assert(self.keys@[nj] == old(self).keys@[j]);
                }
                Some(v)
            },
            None => None,
        }
    }
}

} // verus!
