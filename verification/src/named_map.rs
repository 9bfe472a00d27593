//! A map from names to values that keeps its entries in the order their names
//! were first inserted.

use vstd::prelude::*;

verus! {

/// The map that `keys` and `values`, read side by side, describe: each key is
/// taken to the value at the position of its first occurrence.
pub open spec fn pairs_to_map<V>(keys: Seq<Seq<char>>, values: Seq<V>) -> Map<Seq<char>, V> {
    keys.to_set().mk_map(|k: Seq<char>| values[keys.index_of(k)])
}

/// A string-keyed map whose entries keep their insertion order.
///
/// Each name occurs at most once; inserting under a name that is present replaces its
/// value in place.
#[derive(Debug)]
pub struct NamedMap<V> {
    keys: Vec<String>,
    values: Vec<V>,
}

proof fn lemma_index_of_unique(ks: Seq<Seq<char>>, i: int)
    requires
        ks.no_duplicates(),
        0 <= i < ks.len(),
    ensures
        ks.index_of(ks[i]) == i,
{
    let j = ks.index_of(ks[i]);
    assert(0 <= j < ks.len() && ks[j] == ks[i]);
}

impl<V> NamedMap<V> {
    /// The names, in order.
    pub closed spec fn key_list(&self) -> Seq<Seq<char>> {
        self.keys@.map_values(|s: String| s@)
    }

    /// The values, in the order of their names.
    pub closed spec fn value_list(&self) -> Seq<V> {
        self.values@
    }

    /// One value per name, and no name twice. Every map satisfies this.
    pub closed spec fn well_formed(&self) -> bool {
        &&& self.keys.len() == self.values.len()
        &&& self.key_list().no_duplicates()
    }

    #[verifier::type_invariant]
    spec fn inv(&self) -> bool {
        self.well_formed()
    }

    /// What a well-formed map's lists say: one value per name, no name twice, finitely
    /// many names, and each listed name mapped to the value beside it.
    pub proof fn lemma_shape(&self)
        requires
            self.well_formed(),
        ensures
            self.key_list().len() == self.value_list().len(),
            self.key_list().no_duplicates(),
            self@.dom().finite(),
            self@.len() == self.key_list().len(),
            forall|k: Seq<char>| #[trigger] self@.contains_key(k) <==> self.key_list().contains(k),
            forall|i: int|
                0 <= i < self.key_list().len() ==> #[trigger] self@[self.key_list()[i]]
                    == self.value_list()[i],
    {
        self.shape_of_lists();
    }

    proof fn shape_of_lists(&self)
        requires
            self.keys.len() == self.values.len(),
            self.key_list().no_duplicates(),
        ensures
            self.key_list().len() == self.value_list().len(),
            self@.dom().finite(),
            self@.len() == self.key_list().len(),
            forall|k: Seq<char>| #[trigger] self@.contains_key(k) <==> self.key_list().contains(k),
            forall|i: int|
                0 <= i < self.key_list().len() ==> #[trigger] self@[self.key_list()[i]]
                    == self.value_list()[i],
    {
        broadcast use vstd::seq_lib::seq_to_set_is_finite;
        let ks = self.key_list();
        ks.unique_seq_to_set();
        assert forall|i: int| 0 <= i < ks.len() implies #[trigger] self@[ks[i]]
            == self.value_list()[i] by {
            lemma_index_of_unique(ks, i);
            assert(ks.to_set().contains(ks[i]));
        }
    }
}


impl<T> View for NamedMap<T> {
    type V = Map<Seq<char>, T>;

    /// The map from each name to its value.
    open spec fn view(&self) -> Map<Seq<char>, T> {
        pairs_to_map(self.key_list(), self.value_list())
    }
}

impl<V> NamedMap<V> {
    /// An empty map.
    pub fn new() -> (m: Self)
        ensures
            m@ == Map::<Seq<char>, V>::empty(),
            m.key_list() == Seq::<Seq<char>>::empty(),
    {
        let m = NamedMap { keys: Vec::new(), values: Vec::new() };
        proof {
            assert(m.key_list() =~= Seq::<Seq<char>>::empty());
            assert(m@ =~= Map::<Seq<char>, V>::empty());
        }
        m
    }

    /// An empty map with room for `capacity` entries.
    pub fn with_capacity(capacity: usize) -> (m: Self)
        ensures
            m@ == Map::<Seq<char>, V>::empty(),
            m.key_list() == Seq::<Seq<char>>::empty(),
    {
        let m = NamedMap { keys: Vec::with_capacity(capacity), values: Vec::with_capacity(capacity) };
        proof {
            assert(m.key_list() =~= Seq::<Seq<char>>::empty());
            assert(m@ =~= Map::<Seq<char>, V>::empty());
        }
        m
    }

    /// The number of entries.
    pub fn len(&self) -> (n: usize)
        ensures
            self.well_formed(),
            n == self@.len(),
            n == self.key_list().len(),
            n == self.value_list().len(),
            self@.dom().finite(),
    {
        proof {
            use_type_invariant(self);
            self.shape_of_lists();
        }
        self.keys.len()
    }

    /// The name of the entry at `i`, in insertion order.
    pub fn key_at(&self, i: usize) -> (k: &String)
        requires
            i < self.key_list().len(),
        ensures
            k@ == self.key_list()[i as int],
            self@.contains_key(k@),
    {
        proof {
            use_type_invariant(self);
            self.shape_of_lists();
        }
        proof {
            assert(self.key_list().contains(self.key_list()[i as int]));
        }
        &self.keys[i]
    }

    /// The value of the entry at `i`, in insertion order.
    pub fn value_at(&self, i: usize) -> (v: &V)
        requires
            i < self.value_list().len(),
        ensures
            *v == self.value_list()[i as int],
            i < self.key_list().len(),
            self@[self.key_list()[i as int]] == *v,
    {
        proof {
            use_type_invariant(self);
            self.shape_of_lists();
        }
        &self.values[i]
    }

    fn position(&self, key: &str) -> (pos: Option<usize>)
        ensures
            match pos {
                Some(i) => i < self.keys.len() && self.key_list()[i as int] == key@,
                None => !self.key_list().contains(key@),
            },
    {
        let wanted = key.to_owned();
        let n = self.keys.len();
        let mut i: usize = 0;
        while i < n
            invariant
                n == self.keys.len(),
                i <= n,
                wanted@ == key@,
                forall|j: int| 0 <= j < i ==> self.key_list()[j] != key@,
            decreases n - i,
        {
            if self.keys[i] == wanted {
                return Some(i);
            }
            i = i + 1;
        }
        proof {
            if self.key_list().contains(key@) {
                let j = choose|j: int| 0 <= j < self.key_list().len() && self.key_list()[j] == key@;
                assert(self.key_list()[j] == key@);
            }
        }
        None
    }

    /// The value stored under `key`, if any.
    pub fn get(&self, key: &str) -> (r: Option<&V>)
        ensures
            match r {
                Some(v) => self@.contains_key(key@) && *v == self@[key@],
                None => !self@.contains_key(key@),
            },
    {
        proof {
            use_type_invariant(self);
            self.shape_of_lists();
        }
        match self.position(key) {
            Some(i) => Some(&self.values[i]),
            None => None,
        }
    }

    /// Whether an entry is stored under `key`.
    pub fn contains_key(&self, key: &str) -> (b: bool)
        ensures
            b == self@.contains_key(key@),
    {
        proof {
            use_type_invariant(self);
            self.shape_of_lists();
        }
        self.position(key).is_some()
    }

    /// Moves the two lists out, leaving `self` empty.
    fn take_lists(&mut self) -> (parts: (Vec<String>, Vec<V>))
        ensures
            parts.0.len() == parts.1.len(),
            parts.0@.map_values(|s: String| s@) == old(self).key_list(),
            parts.1@ == old(self).value_list(),
            parts.0@.map_values(|s: String| s@).no_duplicates(),
    {
        proof {
            use_type_invariant(&*self);
        }
        let mut emptied = NamedMap { keys: Vec::new(), values: Vec::new() };
        proof {
            assert(emptied.key_list() =~= Seq::<Seq<char>>::empty());
        }
        std::mem::swap(&mut emptied, self);
        let NamedMap { keys, values } = emptied;
        (keys, values)
    }

    /// Stores `value` under `key`, replacing in place any value stored there before;
    /// a new name goes after the others.
    pub fn insert(&mut self, key: String, value: V)
        ensures
            final(self)@ == old(self)@.insert(key@, value),
            old(self)@.contains_key(key@) ==> final(self).key_list() == old(self).key_list(),
            !old(self)@.contains_key(key@) ==> final(self).key_list() == old(self).key_list().push(key@),
            !old(self)@.contains_key(key@) ==> final(self).value_list() == old(self).value_list().push(value),
    {
        proof {
            use_type_invariant(&*self);
            self.shape_of_lists();
        }
        let ghost old_keys = self.key_list();
        let ghost old_values = self.value_list();
        let ghost old_view = self@;
        match self.position(key.as_str()) {
            Some(i) => {
                let (keys, mut values) = self.take_lists();
                values.set(i, value);
                *self = NamedMap { keys, values };
                proof {
                    assert(self.key_list() =~= old_keys);
                    assert(self.keys.len() == self.values.len());
                    lemma_index_of_unique(old_keys, i as int);
                    assert forall|k: Seq<char>| self@.contains_key(k) implies self@[k] == old_view.insert(key@, value)[k] by {
                        let j = old_keys.index_of(k);
                        lemma_index_of_unique(old_keys, j);
                    }
                    assert(self@ =~= old_view.insert(key@, value));
                }
            },
            None => {
                let ghost kv = key@;
                let (mut keys, mut values) = self.take_lists();
                keys.push(key);
                values.push(value);
                let ghost ks = keys@.map_values(|s: String| s@);
                proof {
                    assert(ks =~= old_keys.push(kv));
                    assert(ks.no_duplicates()) by {
                        assert forall|a: int, b: int| 0 <= a < ks.len() && 0 <= b < ks.len() && a != b implies ks[a] != ks[b] by {
                            if a < old_keys.len() && b < old_keys.len() {
                                assert(ks[a] == old_keys[a] && ks[b] == old_keys[b]);
                            } else if a == old_keys.len() {
                                assert(ks[b] == old_keys[b]);
                            } else {
                                assert(ks[a] == old_keys[a]);
                            }
                        }
                    }
                }
                *self = NamedMap { keys, values };
                proof {
                    assert(self.key_list() == ks);
                    assert(self.value_list() =~= old_values.push(value));
                    assert forall|k: Seq<char>| ks.to_set().contains(k) == old_keys.to_set().insert(kv).contains(k) by {
                        if ks.contains(k) {
                            let j = choose|j: int| 0 <= j < ks.len() && ks[j] == k;
                            if j < old_keys.len() {
                                assert(old_keys[j] == k);
                            }
                        }
                        if old_keys.contains(k) {
                            let j = choose|j: int| 0 <= j < old_keys.len() && old_keys[j] == k;
                            assert(ks[j] == k);
                        }
                        assert(ks[old_keys.len() as int] == kv);
                    }
                    assert(ks.to_set() =~= old_keys.to_set().insert(kv));
                    assert forall|k: Seq<char>| self@.contains_key(k) implies self@[k] == old_view.insert(kv, value)[k] by {
                        let j = ks.index_of(k);
                        lemma_index_of_unique(ks, j);
                        if k != kv {
                            let j0 = old_keys.index_of(k);
                            lemma_index_of_unique(old_keys, j0);
                            lemma_index_of_unique(ks, j0);
                        } else {
                            lemma_index_of_unique(ks, old_keys.len() as int);
                        }
                    }
                    assert(self@ =~= old_view.insert(kv, value));
                }
            },
        }
    }

    /// Removes every entry.
    pub fn clear(&mut self)
        ensures
            final(self)@ == Map::<Seq<char>, V>::empty(),
            final(self).key_list() == Seq::<Seq<char>>::empty(),
    {
        let (mut keys, mut values) = self.take_lists();
        keys.clear();
        values.clear();
        *self = NamedMap { keys, values };
        proof {
            assert(self.key_list() =~= Seq::<Seq<char>>::empty());
            assert(self@ =~= Map::<Seq<char>, V>::empty());
        }
    }

    /// Makes room for `additional` more entries; the contents stay as they are.
    pub fn reserve(&mut self, additional: usize)
        ensures
            final(self)@ == old(self)@,
            final(self).key_list() == old(self).key_list(),
            final(self).value_list() == old(self).value_list(),
    {
        let (mut keys, mut values) = self.take_lists();
        keys.reserve(additional);
        values.reserve(additional);
        *self = NamedMap { keys, values };
    }
}

impl<V: Clone> Clone for NamedMap<V> {
    /// The same names in the same order, each value cloned.
    fn clone(&self) -> (r: Self)
        ensures
            r.key_list() == self.key_list(),
            r.value_list().len() == self.value_list().len(),
            self.key_list().len() == self.value_list().len(),
            forall|i: int|
                0 <= i < self.value_list().len() ==> cloned::<V>(
                    self.value_list()[i],
                    #[trigger] r.value_list()[i],
                ),
    {
        proof {
            use_type_invariant(self);
        }
        let keys = self.keys.clone();
        let values = self.values.clone();
        proof {
            assert(keys@.map_values(|s: String| s@) =~= self.key_list());
        }
        NamedMap { keys, values }
    }
}

} // verus!
