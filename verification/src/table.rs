//! A table keyed by strings: at most one value per key, kept in insertion
//! order.
use vstd::prelude::*;
use crate::text::str_eq;

verus! {

/// Values keyed by strings.
#[derive(Debug)]
pub struct Table<V: View> {
    keys: Vec<String>,
    vals: Vec<V>,
}

/// The map that `keys` and `vals` hold, a later entry winning over an earlier.
pub open spec fn entries_map<V: View>(keys: Seq<String>, vals: Seq<V>) -> Map<Seq<char>, V::V>
    decreases keys.len(),
{
    if keys.len() == 0 || vals.len() == 0 {
        Map::empty()
    } else {
        entries_map(keys.drop_last(), vals.drop_last()).insert(keys.last()@, vals.last()@)
    }
}

/// No key occurs twice.
pub open spec fn unique_keys(keys: Seq<String>) -> bool {
    forall|i: int, j: int| 0 <= i < j < keys.len() ==> keys[i]@ != keys[j]@
}

/// The map of unique entries has exactly their keys, each with its value.
pub proof fn lemma_entries_map<V: View>(keys: Seq<String>, vals: Seq<V>)
    requires
        keys.len() == vals.len(),
        unique_keys(keys),
    ensures
        forall|k: Seq<char>| #[trigger] entries_map(keys, vals).contains_key(k) <==> exists|i: int| 0 <= i < keys.len() && keys[i]@ == k,
        forall|i: int| 0 <= i < keys.len() ==> #[trigger] entries_map(keys, vals)[keys[i]@] == vals[i]@,
    decreases keys.len(),
{
    if keys.len() > 0 {
        let ks = keys.drop_last();
        let vs = vals.drop_last();
        let last = keys.last()@;
        assert(unique_keys(ks)) by {
            assert forall|i: int, j: int| 0 <= i < j < ks.len() implies ks[i]@ != ks[j]@ by {
                assert(ks[i] == keys[i]);
                assert(ks[j] == keys[j]);
            }
        }
        lemma_entries_map(ks, vs);
        let inner = entries_map(ks, vs);
        let m = entries_map(keys, vals);
        assert(m == inner.insert(last, vals.last()@));
        assert forall|k: Seq<char>| #[trigger] m.contains_key(k) <==> exists|i: int| 0 <= i < keys.len() && keys[i]@ == k by {
            if k == last {
                assert(keys[keys.len() - 1]@ == k);
            } else {
                if inner.contains_key(k) {
                    let i = choose|i: int| 0 <= i < ks.len() && ks[i]@ == k;
                    assert(ks[i] == keys[i]);
                    assert(keys[i]@ == k);
                }
                if exists|i: int| 0 <= i < keys.len() && keys[i]@ == k {
                    let i = choose|i: int| 0 <= i < keys.len() && keys[i]@ == k;
                    assert(i != keys.len() - 1);
                    assert(ks[i] == keys[i]);
                    assert(ks[i]@ == k);
                }
            }
        }
        assert forall|i: int| 0 <= i < keys.len() implies #[trigger] m[keys[i]@] == vals[i]@ by {
            if i < keys.len() - 1 {
                assert(ks[i] == keys[i]);
                assert(vs[i] == vals[i]);
                assert(keys[i]@ != last);
                assert(inner[ks[i]@] == vs[i]@);
            }
        }
    }
}

impl<V: View> View for Table<V> {
    type V = Map<Seq<char>, V::V>;

    closed spec fn view(&self) -> Map<Seq<char>, V::V> {
        entries_map(self.keys@, self.vals@)
    }
}

impl<V: View> Table<V> {
    #[verifier::type_invariant]
    spec fn well_formed(self) -> bool {
        &&& self.keys@.len() == self.vals@.len()
        &&& unique_keys(self.keys@)
    }

    proof fn lemma_view(&self)
        requires
            self.well_formed(),
        ensures
            forall|k: Seq<char>| #[trigger] self@.contains_key(k) <==> exists|i: int| 0 <= i < self.keys@.len() && self.keys@[i]@ == k,
            forall|i: int| 0 <= i < self.keys@.len() ==> #[trigger] self@[self.keys@[i]@] == self.vals@[i]@,
    {
        lemma_entries_map(self.keys@, self.vals@);
    }

    /// An empty table.
    pub fn new() -> (r: Self)
        ensures
            r@ == Map::<Seq<char>, V::V>::empty(),
    {
        let r = Table { keys: Vec::new(), vals: Vec::new() };
        assert(r@ =~= Map::<Seq<char>, V::V>::empty());
        r
    }

    fn position(&self, key: &str) -> (r: Option<usize>)
        ensures
            match r {
                Some(i) => i < self.keys@.len() && self.keys@[i as int]@ == key@,
                None => forall|i: int| 0 <= i < self.keys@.len() ==> self.keys@[i]@ != key@,
            },
    {
        let mut i: usize = 0;
        while i < self.keys.len()
            invariant
                i <= self.keys@.len(),
                forall|j: int| 0 <= j < i ==> self.keys@[j]@ != key@,
            decreases self.keys@.len() - i,
        {
            if str_eq(self.keys[i].as_str(), key) {
                return Some(i);
            }
            i = i + 1;
        }
        None
    }

    /// The value under `key`.
    pub fn get(&self, key: &str) -> (r: Option<&V>)
        ensures
            match r {
                Some(v) => self@.contains_key(key@) && self@[key@] == v@,
                None => !self@.contains_key(key@),
            },
    {
        proof {
            use_type_invariant(self);
            self.lemma_view();
        }
        match self.position(key) {
            Some(i) => Some(&self.vals[i]),
            None => None,
        }
    }

    /// Whether `key` has a value.
    pub fn contains(&self, key: &str) -> (r: bool)
        ensures
            r == self@.contains_key(key@),
    {
        proof {
            use_type_invariant(self);
            self.lemma_view();
        }
        self.position(key).is_some()
    }

    /// Sets the value under `key`.
    pub fn insert(&mut self, key: String, value: V)
        ensures
            final(self)@ == old(self)@.insert(key@, value@),
    {
        proof {
            use_type_invariant(&*self);
            self.lemma_view();
        }
        let ghost old_map = self@;
        match self.position(key.as_str()) {
            Some(i) => {
                let ghost keys = self.keys@;
                let mut whole = Table { keys: Vec::new(), vals: Vec::new() };
                std::mem::swap(&mut whole, self);
                let Table { keys: ks, vals: mut vals } = whole;
                vals.set(i, value);
                let ghost vs = vals@;
                proof {
                    lemma_entries_map(keys, vs);
                    assert(entries_map(keys, vs) =~= old_map.insert(key@, value@)) by {
                        assert forall|k: Seq<char>| #[trigger] entries_map(keys, vs).contains_key(k) == old_map.insert(key@, value@).contains_key(k) by {
                        }
                        assert forall|k: Seq<char>| entries_map(keys, vs).contains_key(k) implies #[trigger] entries_map(keys, vs)[k] == old_map.insert(key@, value@)[k] by {
                            let j = choose|j: int| 0 <= j < keys.len() && keys[j]@ == k;
                            assert(entries_map(keys, vs)[keys[j]@] == vs[j]@);
                        }
                    }
                }
                *self = Table { keys: ks, vals };
            },
            None => {
                let ghost keys = self.keys@;
                let ghost vs = self.vals@;
                let mut whole = Table { keys: Vec::new(), vals: Vec::new() };
                std::mem::swap(&mut whole, self);
                let Table { keys: mut ks, vals: mut vals } = whole;
                ks.push(key);
                vals.push(value);
                proof {
                    assert(ks@.drop_last() =~= keys);
                    assert(vals@.drop_last() =~= vs);
                    assert(unique_keys(ks@));
                }
                *self = Table { keys: ks, vals };
            },
        }
    }

    /// Removes the value under `key`; whether there was one.
    pub fn remove(&mut self, key: &str) -> (r: bool)
        ensures
            r == old(self)@.contains_key(key@),
            final(self)@ == old(self)@.remove(key@),
    {
        proof {
            use_type_invariant(&*self);
            self.lemma_view();
        }
        let ghost old_map = self@;
        match self.position(key) {
            None => {
                assert(old_map.remove(key@) =~= old_map);
                false
            },
            Some(i) => {
                let ghost keys = self.keys@;
                let ghost vs = self.vals@;
                let mut whole = Table { keys: Vec::new(), vals: Vec::new() };
                std::mem::swap(&mut whole, self);
                let Table { keys: mut ks, vals: mut vals } = whole;
                ks.remove(i);
                vals.remove(i);
                let ghost nk = ks@;
                let ghost nv = vals@;
                proof {
                    assert(nk =~= keys.remove(i as int));
                    assert(nv =~= vs.remove(i as int));
                    assert(unique_keys(nk)) by {
                        assert forall|a: int, b: int| 0 <= a < b < nk.len() implies nk[a]@ != nk[b]@ by {
                            let a0 = if a < i { a } else { a + 1 };
                            let b0 = if b < i { b } else { b + 1 };
                            assert(nk[a] == keys[a0]);
                            assert(nk[b] == keys[b0]);
                        }
                    }
                    lemma_entries_map(nk, nv);
                    assert(entries_map(nk, nv) =~= old_map.remove(key@)) by {
                        assert forall|k: Seq<char>| #[trigger] entries_map(nk, nv).contains_key(k) == old_map.remove(key@).contains_key(k) by {
                            if old_map.remove(key@).contains_key(k) {
                                let j = choose|j: int| 0 <= j < keys.len() && keys[j]@ == k;
                                assert(j != i);
                                let j2 = if j < i { j } else { j - 1 };
                                assert(nk[j2] == keys[j]);
                            }
                            if entries_map(nk, nv).contains_key(k) {
                                let j = choose|j: int| 0 <= j < nk.len() && nk[j]@ == k;
                                let j0 = if j < i { j } else { j + 1 };
                                assert(nk[j] == keys[j0]);
                            }
                        }
                        assert forall|k: Seq<char>| entries_map(nk, nv).contains_key(k) implies #[trigger] entries_map(nk, nv)[k] == old_map.remove(key@)[k] by {
                            let j = choose|j: int| 0 <= j < nk.len() && nk[j]@ == k;
                            let j0 = if j < i { j } else { j + 1 };
                            assert(nk[j] == keys[j0]);
                            assert(nv[j] == vs[j0]);
                            assert(entries_map(nk, nv)[nk[j]@] == nv[j]@);
                        }
                    }
                }
                *self = Table { keys: ks, vals };
                true
            },
        }
    }

    /// Removes the value under `key` and returns it.
    pub fn take(&mut self, key: &str) -> (r: Option<V>)
        ensures
            final(self)@ == old(self)@.remove(key@),
            match r {
                Some(v) => old(self)@.contains_key(key@) && old(self)@[key@] == v@,
                None => !old(self)@.contains_key(key@),
            },
    {
        proof {
            use_type_invariant(&*self);
            self.lemma_view();
        }
        let ghost old_map = self@;
        match self.position(key) {
            None => {
                assert(old_map.remove(key@) =~= old_map);
                None
            },
            Some(i) => {
                let ghost keys = self.keys@;
                let ghost vs = self.vals@;
                let mut whole = Table { keys: Vec::new(), vals: Vec::new() };
                std::mem::swap(&mut whole, self);
                let Table { keys: mut ks, vals: mut vals } = whole;
                ks.remove(i);
                let v = vals.remove(i);
                let ghost nk = ks@;
                let ghost nv = vals@;
                proof {
                    assert(nk =~= keys.remove(i as int));
                    assert(nv =~= vs.remove(i as int));
                    lemma_remove_entry(keys, vs, i as int);
                }
                *self = Table { keys: ks, vals };
                Some(v)
            },
        }
    }

    /// Number of keys.
    pub fn len(&self) -> (r: usize)
        ensures
            r == self@.dom().len(),
    {
        proof {
            use_type_invariant(self);
            lemma_entries_map_len(self.keys@, self.vals@);
        }
        self.keys.len()
    }

    /// The key at position `i` of the insertion order.
    pub fn key_at(&self, i: usize) -> (r: &String)
        requires
            i < self@.dom().len(),
        ensures
            self@.contains_key(r@),
    {
        proof {
            use_type_invariant(self);
            lemma_entries_map_len(self.keys@, self.vals@);
            self.lemma_view();
        }
        &self.keys[i]
    }

    /// The value at position `i` of the insertion order, with its key.
    pub fn entry_at(&self, i: usize) -> (r: (&String, &V))
        requires
            i < self@.dom().len(),
        ensures
            self@.contains_key(r.0@),
            self@[r.0@] == r.1@,
    {
        proof {
            use_type_invariant(self);
            lemma_entries_map_len(self.keys@, self.vals@);
            self.lemma_view();
        }
        (&self.keys[i], &self.vals[i])
    }

    /// The keys, in insertion order: each key of the table exactly once.
    pub fn keys(&self) -> (r: Vec<String>)
        ensures
            r@.len() == self@.dom().len(),
            unique_keys(r@),
            forall|k: Seq<char>| #[trigger] self@.contains_key(k) <==> exists|i: int| 0 <= i < r@.len() && r@[i]@ == k,
    {
        proof {
            use_type_invariant(self);
            lemma_entries_map_len(self.keys@, self.vals@);
            self.lemma_view();
        }
        let mut r: Vec<String> = Vec::new();
        let mut i: usize = 0;
        while i < self.keys.len()
            invariant
                i <= self.keys@.len(),
                r@.len() == i,
                forall|j: int| 0 <= j < i ==> r@[j]@ == self.keys@[j]@,
            decreases self.keys@.len() - i,
        {
            r.push(self.keys[i].clone());
            i = i + 1;
        }
        proof {
            assert forall|k: Seq<char>| #[trigger] self@.contains_key(k) <==> exists|i: int| 0 <= i < r@.len() && r@[i]@ == k by {
                if self@.contains_key(k) {
                    let j = choose|j: int| 0 <= j < self.keys@.len() && self.keys@[j]@ == k;
                    assert(r@[j]@ == k);
                }
                if exists|i: int| 0 <= i < r@.len() && r@[i]@ == k {
                    let j = choose|j: int| 0 <= j < r@.len() && r@[j]@ == k;
                    assert(self.keys@[j]@ == k);
                }
            }
        }
        r
    }
}

/// Removing entry `i` removes its key from the map.
pub proof fn lemma_remove_entry<V: View>(keys: Seq<String>, vs: Seq<V>, i: int)
    requires
        keys.len() == vs.len(),
        unique_keys(keys),
        0 <= i < keys.len(),
    ensures
        unique_keys(keys.remove(i)),
        entries_map(keys.remove(i), vs.remove(i)) == entries_map(keys, vs).remove(keys[i]@),
{
    let nk = keys.remove(i);
    let nv = vs.remove(i);
    let old_map = entries_map(keys, vs);
    let key = keys[i]@;
    lemma_entries_map(keys, vs);
    assert(unique_keys(nk)) by {
        assert forall|a: int, b: int| 0 <= a < b < nk.len() implies nk[a]@ != nk[b]@ by {
            let a0 = if a < i { a } else { a + 1 };
            let b0 = if b < i { b } else { b + 1 };
            assert(nk[a] == keys[a0]);
            assert(nk[b] == keys[b0]);
        }
    }
    lemma_entries_map(nk, nv);
    assert(entries_map(nk, nv) =~= old_map.remove(key)) by {
        assert forall|k: Seq<char>| #[trigger] entries_map(nk, nv).contains_key(k) == old_map.remove(key).contains_key(k) by {
            if old_map.remove(key).contains_key(k) {
                let j = choose|j: int| 0 <= j < keys.len() && keys[j]@ == k;
                assert(j != i);
                let j2 = if j < i { j } else { j - 1 };
                assert(nk[j2] == keys[j]);
            }
            if entries_map(nk, nv).contains_key(k) {
                let j = choose|j: int| 0 <= j < nk.len() && nk[j]@ == k;
                let j0 = if j < i { j } else { j + 1 };
                assert(nk[j] == keys[j0]);
            }
        }
        assert forall|k: Seq<char>| entries_map(nk, nv).contains_key(k) implies #[trigger] entries_map(nk, nv)[k] == old_map.remove(key)[k] by {
            let j = choose|j: int| 0 <= j < nk.len() && nk[j]@ == k;
            let j0 = if j < i { j } else { j + 1 };
            assert(nk[j] == keys[j0]);
            assert(nv[j] == vs[j0]);
            assert(entries_map(nk, nv)[nk[j]@] == nv[j]@);
        }
    }
}

/// The map of unique entries has as many keys as entries.
pub proof fn lemma_entries_map_len<V: View>(keys: Seq<String>, vals: Seq<V>)
    requires
        keys.len() == vals.len(),
        unique_keys(keys),
    ensures
        entries_map(keys, vals).dom().finite(),
        entries_map(keys, vals).dom().len() == keys.len(),
    decreases keys.len(),
{
    if keys.len() > 0 {
        lemma_entries_map_len(keys.drop_last(), vals.drop_last());
        lemma_entries_map(keys.drop_last(), vals.drop_last());
        assert(!entries_map(keys.drop_last(), vals.drop_last()).contains_key(keys.last()@)) by {
            if entries_map(keys.drop_last(), vals.drop_last()).contains_key(keys.last()@) {
                let i = choose|i: int| 0 <= i < keys.len() - 1 && keys.drop_last()[i]@ == keys.last()@;
                assert(keys[i]@ == keys[keys.len() - 1]@);
            }
        }
    }
}

} // verus!
