use vstd::prelude::*;

verus! {

/// A table from text keys to values in which every key occurs at most once.
///
/// Inserting under a key that is present replaces its value; entries are
/// listed in no particular order.
pub struct Registry<V> {
    entries: Vec<(String, V)>,
}

impl<V> Registry<V> {
    #[verifier::type_invariant]
    closed spec fn keys_unique(self) -> bool {
        forall|i: int, j: int|
            #![trigger self.entries@[i], self.entries@[j]]
            0 <= i < self.entries@.len() && 0 <= j < self.entries@.len() && i != j
                ==> self.entries@[i].0@ != self.entries@[j].0@
    }

    /// Entry `i` holds key `k`.
    closed spec fn holds_at(self, i: int, k: Seq<char>) -> bool {
        0 <= i < self.entries@.len() && self.entries@[i].0@ == k
    }

    /// The table as a map from keys to values.
    pub closed spec fn as_map(self) -> Map<Seq<char>, V> {
        Map::new(
            |k: Seq<char>| exists|i: int| #[trigger] self.holds_at(i, k),
            |k: Seq<char>| self.entries@[choose|i: int| #[trigger] self.holds_at(i, k)].1,
        )
    }

    proof fn lemma_entry_in_map(self, i: int)
        requires
            self.keys_unique(),
            0 <= i < self.entries@.len(),
        ensures
            self.as_map().contains_key(self.entries@[i].0@),
            self.as_map()[self.entries@[i].0@] == self.entries@[i].1,
    {
        let k = self.entries@[i].0@;
        assert(self.holds_at(i, k));
        let j = choose|j: int| #[trigger] self.holds_at(j, k);
        assert(self.holds_at(j, k));
        if j != i {
            assert(self.entries@[i].0@ != self.entries@[j].0@);
        }
    }

    /// An empty table.
    pub fn new() -> (r: Registry<V>)
        ensures
            r@ == Map::<Seq<char>, V>::empty(),
    {
        let r = Registry { entries: Vec::new() };
        assert(r.as_map() =~= Map::<Seq<char>, V>::empty());
        r
    }

    fn find(&self, key: &String) -> (r: Option<usize>)
        ensures
            match r {
                Some(i) => self.holds_at(i as int, key@),
                None => forall|i: int| !#[trigger] self.holds_at(i, key@),
            },
    {
        let mut i: usize = 0;
        while i < self.entries.len()
            invariant
                i <= self.entries@.len(),
                forall|j: int| 0 <= j < i ==> !#[trigger] self.holds_at(j, key@),
            decreases self.entries@.len() - i,
        {
            if self.entries[i].0 == *key {
                return Some(i);
            }
            i = i + 1;
        }
        None
    }

    /// The value stored under `key`, if there is one.
    pub fn get(&self, key: &str) -> (r: Option<&V>)
        ensures
            r.is_some() == self@.contains_key(key@),
            r matches Some(v) ==> *v == self@[key@],
    {
        proof {
            use_type_invariant(self);
        }
        let owned = key.to_owned();
        match self.find(&owned) {
            Some(i) => {
                proof {
                    self.lemma_entry_in_map(i as int);
                }
                Some(&self.entries[i].1)
            },
            None => None,
        }
    }

    /// Stores `value` under `key`, replacing the value stored there before.
    pub fn insert(&mut self, key: String, value: V)
        ensures
            final(self)@ == old(self)@.insert(key@, value),
    {
        proof {
            use_type_invariant(&*self);
        }
        let ghost old_self = *self;
        let ghost k = key@;
        let found = self.find(&key);
        let mut entries: Vec<(String, V)> = Vec::new();
        std::mem::swap(&mut entries, &mut self.entries);
        match found {
            Some(i) => {
                entries.set(i, (key, value));
                let ghost result = Registry { entries };
                proof {
                    assert forall|a: int, b: int|
                        #![trigger result.entries@[a], result.entries@[b]]
                        0 <= a < result.entries@.len() && 0 <= b < result.entries@.len() && a != b
                            implies result.entries@[a].0@ != result.entries@[b].0@ by {
                        assert(old_self.entries@[a] == old_self.entries@[a]);
                        assert(old_self.entries@[b] == old_self.entries@[b]);
                    }
                    assert(result.keys_unique());
                    assert forall|q: Seq<char>|
                        #![trigger result.as_map().contains_key(q)]
                        result.as_map().contains_key(q) == old_self.as_map().insert(k, value).contains_key(q)
                    by {
                        if q != k {
                            if exists|j: int| #[trigger] old_self.holds_at(j, q) {
                                let j = choose|j: int| #[trigger] old_self.holds_at(j, q);
                                assert(result.holds_at(j, q));
                            }
                            if exists|j: int| #[trigger] result.holds_at(j, q) {
                                let j = choose|j: int| #[trigger] result.holds_at(j, q);
                                assert(old_self.holds_at(j, q));
                            }
                        } else {
                            assert(result.holds_at(i as int, q));
                        }
                    }
                    assert forall|q: Seq<char>|
                        #![trigger result.as_map()[q]]
                        result.as_map().contains_key(q) implies result.as_map()[q]
                            == old_self.as_map().insert(k, value)[q]
                    by {
                        let j = choose|j: int| #[trigger] result.holds_at(j, q);
                        assert(result.holds_at(j, q));
                        result.lemma_entry_in_map(j);
                        if q != k {
                            assert(old_self.holds_at(j, q));
                            old_self.lemma_entry_in_map(j);
                        }
                    }
                    assert(result.as_map() =~= old_self.as_map().insert(k, value));
                }
                self.entries = entries;
                assert(*self == result);
            },
            None => {
                entries.push((key, value));
                let ghost result = Registry { entries };
                proof {
                    let n = old_self.entries@.len() as int;
                    assert forall|a: int, b: int|
                        #![trigger result.entries@[a], result.entries@[b]]
                        0 <= a < result.entries@.len() && 0 <= b < result.entries@.len() && a != b
                            implies result.entries@[a].0@ != result.entries@[b].0@ by {
                        if a == n {
                            assert(!old_self.holds_at(b, k));
                        } else if b == n {
                            assert(!old_self.holds_at(a, k));
                        } else {
                            assert(old_self.entries@[a] == result.entries@[a]);
                            assert(old_self.entries@[b] == result.entries@[b]);
                        }
                    }
                    assert(result.keys_unique());
                    assert forall|q: Seq<char>|
                        #![trigger result.as_map().contains_key(q)]
                        result.as_map().contains_key(q) == old_self.as_map().insert(k, value).contains_key(q)
                    by {
                        if q != k {
                            if exists|j: int| #[trigger] old_self.holds_at(j, q) {
                                let j = choose|j: int| #[trigger] old_self.holds_at(j, q);
                                assert(result.holds_at(j, q));
                            }
                            if exists|j: int| #[trigger] result.holds_at(j, q) {
                                let j = choose|j: int| #[trigger] result.holds_at(j, q);
                                assert(old_self.holds_at(j, q));
                            }
                        } else {
                            assert(result.holds_at(n, q));
                        }
                    }
                    assert forall|q: Seq<char>|
                        #![trigger result.as_map()[q]]
                        result.as_map().contains_key(q) implies result.as_map()[q]
                            == old_self.as_map().insert(k, value)[q]
                    by {
                        let j = choose|j: int| #[trigger] result.holds_at(j, q);
                        assert(result.holds_at(j, q));
                        result.lemma_entry_in_map(j);
                        if q != k {
                            assert(j < n);
                            assert(result.entries@[j] == old_self.entries@[j]);
                            assert(old_self.holds_at(j, q));
                            old_self.lemma_entry_in_map(j);
                        } else {
                            assert(result.holds_at(n, q));
                            result.lemma_entry_in_map(n);
                        }
                    }
                    assert(result.as_map() =~= old_self.as_map().insert(k, value));
                }
                self.entries = entries;
                assert(*self == result);
            },
        }
    }

    /// Removes whatever is stored under `key`.
    pub fn remove(&mut self, key: &str)
        ensures
            final(self)@ == old(self)@.remove(key@),
    {
        proof {
            use_type_invariant(&*self);
        }
        let ghost old_self = *self;
        let ghost k = key@;
        let owned = key.to_owned();
        match self.find(&owned) {
            Some(i) => {
                let mut entries: Vec<(String, V)> = Vec::new();
                std::mem::swap(&mut entries, &mut self.entries);
                let _removed = entries.remove(i);
                let ghost result = Registry { entries };
                proof {
                    let ii = i as int;
                    assert forall|a: int, b: int|
                        #![trigger result.entries@[a], result.entries@[b]]
                        0 <= a < result.entries@.len() && 0 <= b < result.entries@.len() && a != b
                            implies result.entries@[a].0@ != result.entries@[b].0@ by {
                        let oa = if a < ii { a } else { a + 1 };
                        let ob = if b < ii { b } else { b + 1 };
                        assert(result.entries@[a] == old_self.entries@[oa]);
                        assert(result.entries@[b] == old_self.entries@[ob]);
                    }
                    assert(result.keys_unique());
                    assert forall|q: Seq<char>|
                        #![trigger result.as_map().contains_key(q)]
                        result.as_map().contains_key(q) == old_self.as_map().remove(k).contains_key(q)
                    by {
                        if exists|j: int| #[trigger] old_self.holds_at(j, q) {
                            let j = choose|j: int| #[trigger] old_self.holds_at(j, q);
                            if q != k {
                                assert(j != ii);
                                let nj = if j < ii { j } else { j - 1 };
                                assert(result.entries@[nj] == old_self.entries@[j]);
                                assert(result.holds_at(nj, q));
                            }
                        }
                        if exists|j: int| #[trigger] result.holds_at(j, q) {
                            let j = choose|j: int| #[trigger] result.holds_at(j, q);
                            let oj = if j < ii { j } else { j + 1 };
                            assert(result.entries@[j] == old_self.entries@[oj]);
                            assert(old_self.holds_at(oj, q));
                            assert(oj != ii);
                        }
                    }
                    assert forall|q: Seq<char>|
                        #![trigger result.as_map()[q]]
                        result.as_map().contains_key(q) implies result.as_map()[q]
                            == old_self.as_map().remove(k)[q]
                    by {
                        let j = choose|j: int| #[trigger] result.holds_at(j, q);
                        assert(result.holds_at(j, q));
                        result.lemma_entry_in_map(j);
                        let oj = if j < ii { j } else { j + 1 };
                        assert(result.entries@[j] == old_self.entries@[oj]);
                        assert(old_self.holds_at(oj, q));
                        old_self.lemma_entry_in_map(oj);
                    }
                    assert(result.as_map() =~= old_self.as_map().remove(k));
                }
                self.entries = entries;
                assert(*self == result);
            },
            None => {
                proof {
                    assert(!old_self.as_map().contains_key(k));
                    assert(self.as_map() =~= old_self.as_map().remove(k));
                }
            },
        }
    }

    /// Removes whatever is stored under any of `keys`.
    pub fn remove_all(&mut self, keys: &Vec<String>)
        ensures
            final(self)@ == without_keys(old(self)@, keys@.map_values(|k: String| k@)),
            forall|i: int| 0 <= i < keys@.len() ==> !final(self)@.contains_key(#[trigger] keys@[i]@),
            forall|k: Seq<char>|
                (forall|i: int| 0 <= i < keys@.len() ==> #[trigger] keys@[i]@ != k) ==> (
                final(self)@.contains_key(k) == old(self)@.contains_key(k) && (old(self)@.contains_key(k)
                    ==> final(self)@[k] == old(self)@[k])),
    {
        let ghost old_map = self@;
        let ghost names = keys@.map_values(|k: String| k@);
        let mut i: usize = 0;
        proof {
            assert(without_keys(old_map, names.take(0)) =~= old_map);
        }
        while i < keys.len()
            invariant
                i <= keys@.len(),
                names == keys@.map_values(|k: String| k@),
                self@ == without_keys(old_map, names.take(i as int)),
            decreases keys@.len() - i,
        {
            self.remove(keys[i].as_str());
            proof {
                let before = names.take(i as int);
                let after = names.take(i + 1);
                let x = keys@[i as int]@;
                assert(after =~= before.push(x));
                assert forall|k: Seq<char>| after.contains(k) <==> (before.contains(k) || k == x) by {
                    if after.contains(k) {
                        let j = choose|j: int| 0 <= j < after.len() && after[j] == k;
                        if j < before.len() {
                            assert(before[j] == k);
                        }
                    }
                    if before.contains(k) {
                        let j = choose|j: int| 0 <= j < before.len() && before[j] == k;
                        assert(after[j] == k);
                    }
                    if k == x {
                        assert(after[i as int] == k);
                    }
                }
                assert(self@ =~= without_keys(old_map, after));
            }
            i = i + 1;
        }
        proof {
            assert(names.take(keys@.len() as int) =~= names);
            assert forall|j: int| 0 <= j < keys@.len() implies !self@.contains_key(#[trigger] keys@[j]@) by {
                assert(names[j] == keys@[j]@);
                law_without_keys(old_map, names);
            }
            assert forall|k: Seq<char>|
                (forall|j: int| 0 <= j < keys@.len() ==> #[trigger] keys@[j]@ != k) implies (
                self@.contains_key(k) == old_map.contains_key(k) && (old_map.contains_key(k)
                    ==> self@[k] == old_map[k])) by {
                assert forall|j: int| 0 <= j < names.len() implies names[j] != k by {
                    assert(names[j] == keys@[j]@);
                }
                law_without_keys(old_map, names);
            }
        }
    }

    /// Every entry of the table, each key once, in no particular order.
    pub fn iter(&self) -> (r: Vec<(&str, &V)>)
        ensures
            forall|i: int|
                0 <= i < r@.len() ==> self@.contains_key(#[trigger] r@[i].0@)
                    && self@[r@[i].0@] == *r@[i].1,
            forall|k: Seq<char>|
                self@.contains_key(k) ==> exists|i: int| 0 <= i < r@.len() && #[trigger] r@[i].0@ == k,
            forall|i: int, j: int|
                0 <= i < r@.len() && 0 <= j < r@.len() && i != j ==> #[trigger] r@[i].0@ != #[trigger] r@[j].0@,
    {
        proof {
            use_type_invariant(self);
        }
        let mut r: Vec<(&str, &V)> = Vec::new();
        let mut i: usize = 0;
        while i < self.entries.len()
            invariant
                self.keys_unique(),
                i <= self.entries@.len(),
                r@.len() == i,
                forall|j: int| 0 <= j < i ==> (#[trigger] r@[j]).0@ == self.entries@[j].0@ && *r@[j].1 == self.entries@[j].1,
            decreases self.entries@.len() - i,
        {
            let entry = &self.entries[i];
            r.push((entry.0.as_str(), &entry.1));
            i = i + 1;
        }
        proof {
            assert forall|i: int| 0 <= i < r@.len() implies self@.contains_key(#[trigger] r@[i].0@)
                && self@[r@[i].0@] == *r@[i].1 by {
                self.lemma_entry_in_map(i);
            }
            assert forall|k: Seq<char>| self@.contains_key(k) implies exists|i: int| 0 <= i < r@.len() && #[trigger] r@[i].0@ == k by {
                let j = choose|j: int| #[trigger] self.holds_at(j, k);
                assert(r@[j].0@ == k);
            }
            assert forall|i: int, j: int| 0 <= i < r@.len() && 0 <= j < r@.len() && i != j implies #[trigger] r@[i].0@ != #[trigger] r@[j].0@ by {
                assert(self.entries@[i] == self.entries@[i]);
                assert(self.entries@[j] == self.entries@[j]);
            }
        }
        r
    }
}

/// `m` without the entries under any of `keys`.
pub open spec fn without_keys<V>(m: Map<Seq<char>, V>, keys: Seq<Seq<char>>) -> Map<Seq<char>, V> {
    Map::new(|k: Seq<char>| m.contains_key(k) && !keys.contains(k), |k: Seq<char>| m[k])
}

/// Removing a list of keys leaves none of them and keeps every other entry as it was.
pub proof fn law_without_keys<V>(m: Map<Seq<char>, V>, keys: Seq<Seq<char>>)
    ensures
        forall|i: int| 0 <= i < keys.len() ==> !without_keys(m, keys).contains_key(#[trigger] keys[i]),
        forall|k: Seq<char>|
            (forall|i: int| 0 <= i < keys.len() ==> #[trigger] keys[i] != k) ==> (
            without_keys(m, keys).contains_key(k) == m.contains_key(k) && (m.contains_key(k)
                ==> without_keys(m, keys)[k] == m[k])),
{
    assert forall|i: int| 0 <= i < keys.len() implies !without_keys(m, keys).contains_key(#[trigger] keys[i]) by {
        assert(keys.contains(keys[i]));
    }
}

impl<V> View for Registry<V> {
    type V = Map<Seq<char>, V>;

    open spec fn view(&self) -> Map<Seq<char>, V> {
        self.as_map()
    }
}

} // verus!
