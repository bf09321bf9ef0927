//! Collections keyed by document URI, in the order in which the keys came.

use vstd::prelude::*;

verus! {

/// One key of a [`UriMap`] with its value.
pub struct UriEntry<V> {
    pub uri: String,
    pub value: V,
}

/// A map from document URIs to values that keeps its keys in the order of
/// their first insertion. No key occurs twice.
pub struct UriMap<V> {
    entries: Vec<UriEntry<V>>,
}

impl<V> View for UriMap<V> {
    type V = Map<Seq<char>, V>;

    /// The values by their keys.
    open spec fn view(&self) -> Map<Seq<char>, V> {
        Map::new(|uri: Seq<char>| self.contains_key(uri), |uri: Seq<char>| self.value_of(uri))
    }
}

impl<V> UriMap<V> {
    /// The keys, in the order of their first insertion.
    pub closed spec fn keys(&self) -> Seq<Seq<char>> {
        self.entries@.map_values(|e: UriEntry<V>| e.uri@)
    }

    /// The values, each at the index of its key.
    pub closed spec fn values(&self) -> Seq<V> {
        self.entries@.map_values(|e: UriEntry<V>| e.value)
    }

    #[verifier::type_invariant]
    pub closed spec fn wf(&self) -> bool {
        self.keys().no_duplicates()
    }

    /// Whether `uri` is a key.
    pub open spec fn contains_key(&self, uri: Seq<char>) -> bool {
        self.keys().contains(uri)
    }

    /// The value stored under `uri`.
    pub open spec fn value_of(&self, uri: Seq<char>) -> V
        recommends
            self.contains_key(uri),
    {
        self.values()[self.keys().index_of(uri)]
    }

    /// Keys and values have one length, and no key occurs twice.
    pub proof fn lemma_wf(&self)
        requires
            self.wf(),
        ensures
            self.keys().len() == self.values().len(),
            self.keys().no_duplicates(),
    {
    }

    /// A key at index `i` has the value at index `i`.
    pub proof fn lemma_value_at(&self, i: int)
        requires
            self.wf(),
            0 <= i < self.keys().len(),
        ensures
            self.keys().len() == self.values().len(),
            self.contains_key(self.keys()[i]),
            self.value_of(self.keys()[i]) == self.values()[i],
    {
        let k = self.keys()[i];
        let j = self.keys().index_of(k);
        assert(self.keys()[j] == k);
    }

    /// An empty map.
    pub fn new() -> (map: Self)
        ensures
            map.keys() == Seq::<Seq<char>>::empty(),
            map.values() == Seq::<V>::empty(),
            map.wf(),
    {
        UriMap { entries: Vec::new() }
    }

    /// The number of keys.
    pub fn len(&self) -> (n: usize)
        ensures
            n == self.keys().len(),
            n == self.values().len(),
    {
        self.entries.len()
    }

    /// The index of `uri` among the keys.
    pub fn find(&self, uri: &String) -> (index: Option<usize>)
        ensures
            match index {
                Some(i) => i < self.keys().len() && self.keys()[i as int] == uri@
                    && self.keys().index_of(uri@) == i,
                None => !self.contains_key(uri@),
            },
            self.wf(),
    {
        proof {
            use_type_invariant(self);
        }
        let mut i: usize = 0;
        while i < self.entries.len()
            invariant
                i <= self.entries.len(),
                self.wf(),
                forall|j: int| 0 <= j < i ==> self.keys()[j] != uri@,
            decreases self.entries.len() - i,
        {
            if self.entries[i].uri == *uri {
                proof {
                    let j = self.keys().index_of(uri@);
                    assert(self.keys()[i as int] == uri@);
                    assert(self.keys()[j] == uri@);
                }
                return Some(i);
            }
            i += 1;
        }
        None
    }

    /// The key at index `i`.
    pub fn key_at(&self, i: usize) -> (uri: &String)
        requires
            i < self.keys().len(),
        ensures
            uri@ == self.keys()[i as int],
    {
        &self.entries[i].uri
    }

    /// The value at index `i`.
    pub fn value_at(&self, i: usize) -> (value: &V)
        requires
            i < self.values().len(),
        ensures
            *value == self.values()[i as int],
    {
        &self.entries[i].value
    }

    /// The keys with their values, in the order of the keys.
    pub fn into_entries(self) -> (entries: Vec<UriEntry<V>>)
        ensures
            entries@.map_values(|e: UriEntry<V>| e.uri@) == self.keys(),
            entries@.map_values(|e: UriEntry<V>| e.value) == self.values(),
            self.keys().no_duplicates(),
            self.wf(),
    {
        proof {
            use_type_invariant(&self);
        }
        self.entries
    }

    /// The value stored under `uri`, if it is a key.
    pub fn get(&self, uri: &String) -> (value: Option<&V>)
        ensures
            match value {
                Some(v) => self.contains_key(uri@) && *v == self.value_of(uri@),
                None => !self.contains_key(uri@),
            },
    {
        match self.find(uri) {
            Some(i) => Some(&self.entries[i].value),
            None => None,
        }
    }

    /// Stores `value` under `uri`. A key that is new goes behind the others;
    /// one that is there keeps its place.
    pub fn insert(&mut self, uri: String, value: V)
        ensures
            final(self).wf(),
            old(self).contains_key(uri@) ==> final(self).keys() == old(self).keys()
                && final(self).values() == old(self).values().update(
                old(self).keys().index_of(uri@),
                value,
            ),
            !old(self).contains_key(uri@) ==> final(self).keys() == old(self).keys().push(uri@)
                && final(self).values() == old(self).values().push(value),
            final(self).contains_key(uri@),
            final(self).value_of(uri@) == value,
            forall|k: Seq<char>|
                k != uri@ ==> (#[trigger] final(self).contains_key(k) <==> old(self).contains_key(
                    k,
                )),
            forall|k: Seq<char>|
                k != uri@ && old(self).contains_key(k) ==> #[trigger] final(self).value_of(k)
                    == old(self).value_of(k),
    {
        proof {
            use_type_invariant(&*self);
        }
        let found = self.find(&uri);
        let mut entries: Vec<UriEntry<V>> = Vec::new();
        std::mem::swap(&mut entries, &mut self.entries);
        let ghost before = entries@;
        let ghost old_keys = before.map_values(|e: UriEntry<V>| e.uri@);
        match found {
            Some(i) => {
                entries[i].value = value;
                assert(entries@.map_values(|e: UriEntry<V>| e.uri@) == before.map_values(
                    |e: UriEntry<V>| e.uri@,
                ));
                assert(entries@.map_values(|e: UriEntry<V>| e.value) == before.map_values(
                    |e: UriEntry<V>| e.value,
                ).update(i as int, value));
            },
            None => {
                entries.push(UriEntry { uri, value });
                assert(entries@.map_values(|e: UriEntry<V>| e.uri@) == before.map_values(
                    |e: UriEntry<V>| e.uri@,
                ).push(uri@));
                assert(entries@.map_values(|e: UriEntry<V>| e.value) == before.map_values(
                    |e: UriEntry<V>| e.value,
                ).push(value));
            },
        }
        self.entries = entries;
        proof {
            let new_keys = self.keys();
            let at = if found is Some {
                found.unwrap() as int
            } else {
                old_keys.len() as int
            };
            assert(new_keys[at] == uri@);
            assert(new_keys.index_of(uri@) == at) by {
                let j = new_keys.index_of(uri@);
                assert(new_keys[j] == uri@);
            }
            assert forall|k: Seq<char>| k != uri@ implies (#[trigger] self.contains_key(k)
                <==> old(self).contains_key(k)) by {
                if self.contains_key(k) {
                    let j = new_keys.index_of(k);
                    assert(new_keys[j] == k);
                    assert(old_keys[j] == k);
                }
                if old(self).contains_key(k) {
                    let j = old_keys.index_of(k);
                    assert(old_keys[j] == k);
                    assert(new_keys[j] == k);
                }
            }
            assert forall|k: Seq<char>| k != uri@ && old(self).contains_key(k) implies
                #[trigger] self.value_of(k) == old(self).value_of(k) by {
                let j = old_keys.index_of(k);
                assert(old_keys[j] == k);
                assert(new_keys[j] == k);
                let j2 = new_keys.index_of(k);
                assert(new_keys[j2] == k);
            }
        }
    }
}

impl<T> UriMap<Vec<T>> {
    /// The items listed under `uri`: none where `uri` is no key.
    pub open spec fn list_of(&self, uri: Seq<char>) -> Seq<T> {
        if self.contains_key(uri) {
            self.value_of(uri)@
        } else {
            Seq::empty()
        }
    }

    /// Puts `items` behind those already listed under `uri`.
    pub fn append_all(&mut self, uri: String, items: Vec<T>)
        ensures
            final(self).wf(),
            final(self).keys() == if old(self).contains_key(uri@) {
                old(self).keys()
            } else {
                old(self).keys().push(uri@)
            },
            forall|k: Seq<char>|
                #[trigger] final(self).list_of(k) == if k == uri@ {
                    old(self).list_of(k) + items@
                } else {
                    old(self).list_of(k)
                },
            forall|k: Seq<char>|
                #[trigger] final(self).contains_key(k) <==> old(self).contains_key(k) || k
                    == uri@,
    {
        proof {
            use_type_invariant(&*self);
            assert forall|k: Seq<char>| #[trigger]
                old(self).keys().push(uri@).contains(k) <==> old(self).contains_key(k) || k
                    == uri@ by {
                vstd::seq_lib::lemma_seq_contains_after_push(old(self).keys(), uri@, k);
            }
        }
        let found = self.find(&uri);
        let mut entries: Vec<UriEntry<Vec<T>>> = Vec::new();
        std::mem::swap(&mut entries, &mut self.entries);
        let ghost before = entries@;
        let ghost old_keys = before.map_values(|e: UriEntry<Vec<T>>| e.uri@);
        let ghost old_values = before.map_values(|e: UriEntry<Vec<T>>| e.value);
        let mut items = items;
        let ghost added = items@;
        match found {
            Some(i) => {
                entries[i].value.append(&mut items);
                assert(entries@.map_values(|e: UriEntry<Vec<T>>| e.uri@) == old_keys);
                assert(entries@.map_values(|e: UriEntry<Vec<T>>| e.value) == old_values.update(
                    i as int,
                    entries@[i as int].value,
                ));
            },
            None => {
                entries.push(UriEntry { uri, value: items });
                assert(entries@.map_values(|e: UriEntry<Vec<T>>| e.uri@) == old_keys.push(uri@));
                assert(entries@.map_values(|e: UriEntry<Vec<T>>| e.value) == old_values.push(
                    items,
                ));
            },
        }
        self.entries = entries;
        proof {
            let new_keys = self.keys();
            let new_values = self.values();
            assert forall|k: Seq<char>|
                #[trigger] self.list_of(k) == if k == uri@ {
                    old(self).list_of(k) + added
                } else {
                    old(self).list_of(k)
                } by {
                if old_keys.contains(k) {
                    let j = old_keys.index_of(k);
                    assert(new_keys[j] == k);
                    assert(new_keys.index_of(k) == j) by {
                        let j2 = new_keys.index_of(k);
                        assert(new_keys[j2] == k);
                    }
                } else if k == uri@ {
                    let last = old_keys.len() as int;
                    assert(new_keys[last] == k);
                    assert(new_keys.index_of(k) == last) by {
                        let j2 = new_keys.index_of(k);
                        assert(new_keys[j2] == k);
                    }
                    assert(old(self).list_of(k) + added == added);
                } else {
                    if new_keys.contains(k) {
                        let j2 = new_keys.index_of(k);
                        assert(new_keys[j2] == k);
                        assert(old_keys[j2] == k);
                    }
                }
            }
        }
    }

    /// Puts `item` behind those already listed under `uri`.
    pub fn append(&mut self, uri: String, item: T)
        ensures
            final(self).wf(),
            final(self).keys() == if old(self).contains_key(uri@) {
                old(self).keys()
            } else {
                old(self).keys().push(uri@)
            },
            forall|k: Seq<char>|
                #[trigger] final(self).list_of(k) == if k == uri@ {
                    old(self).list_of(k).push(item)
                } else {
                    old(self).list_of(k)
                },
            forall|k: Seq<char>|
                #[trigger] final(self).contains_key(k) <==> old(self).contains_key(k) || k
                    == uri@,
    {
        let mut items: Vec<T> = Vec::new();
        items.push(item);
        assert(items@ == seq![item]);
        self.append_all(uri, items);
        assert forall|k: Seq<char>|
            #[trigger] self.list_of(k) == if k == uri@ {
                old(self).list_of(k).push(item)
            } else {
                old(self).list_of(k)
            } by {
            assert(old(self).list_of(k) + seq![item] == old(self).list_of(k).push(item));
        }
    }
}

/// A set of document URIs that keeps them in the order in which they came.
pub struct UriSet {
    uris: Vec<String>,
}

impl View for UriSet {
    type V = Set<Seq<char>>;

    /// The members.
    open spec fn view(&self) -> Set<Seq<char>> {
        Set::new(|uri: Seq<char>| self.contains(uri))
    }
}

impl UriSet {
    /// The members, in the order of their insertion.
    pub closed spec fn uris(&self) -> Seq<Seq<char>> {
        self.uris@.map_values(|u: String| u@)
    }

    #[verifier::type_invariant]
    pub closed spec fn wf(&self) -> bool {
        self.uris().no_duplicates()
    }

    /// Whether `uri` is a member.
    pub open spec fn contains(&self, uri: Seq<char>) -> bool {
        self.uris().contains(uri)
    }

    /// No member occurs twice.
    pub proof fn lemma_wf(&self)
        requires
            self.wf(),
        ensures
            self.uris().no_duplicates(),
    {
    }

    /// An empty set.
    pub fn new() -> (set: Self)
        ensures
            set.uris() == Seq::<Seq<char>>::empty(),
            set.wf(),
    {
        UriSet { uris: Vec::new() }
    }

    /// The number of members.
    pub fn len(&self) -> (n: usize)
        ensures
            n == self.uris().len(),
    {
        self.uris.len()
    }

    /// Whether the set has no member.
    pub fn is_empty(&self) -> (empty: bool)
        ensures
            empty == (self.uris().len() == 0),
    {
        self.uris.len() == 0
    }

    /// The member at index `i`.
    pub fn uri_at(&self, i: usize) -> (uri: &String)
        requires
            i < self.uris().len(),
        ensures
            uri@ == self.uris()[i as int],
    {
        &self.uris[i]
    }

    /// Whether `uri` is a member.
    pub fn has(&self, uri: &String) -> (found: bool)
        ensures
            found == self.contains(uri@),
    {
        let mut i: usize = 0;
        while i < self.uris.len()
            invariant
                i <= self.uris.len(),
                forall|j: int| 0 <= j < i ==> self.uris()[j] != uri@,
            decreases self.uris.len() - i,
        {
            if self.uris[i] == *uri {
                assert(self.uris()[i as int] == uri@);
                return true;
            }
            i += 1;
        }
        false
    }

    /// Adds `uri` behind the others, unless it is a member already.
    pub fn insert(&mut self, uri: String)
        ensures
            final(self).wf(),
            final(self).uris() == if old(self).contains(uri@) {
                old(self).uris()
            } else {
                old(self).uris().push(uri@)
            },
            forall|u: Seq<char>|
                #[trigger] final(self).contains(u) <==> old(self).contains(u) || u == uri@,
    {
        proof {
            use_type_invariant(&*self);
        }
        assert forall|u: Seq<char>| #[trigger]
            old(self).uris().push(uri@).contains(u) <==> old(self).contains(u) || u == uri@ by {
            let pushed = old(self).uris().push(uri@);
            if old(self).contains(u) {
                let j = old(self).uris().index_of(u);
                assert(old(self).uris()[j] == u);
                assert(pushed[j] == u);
            }
            if u == uri@ {
                assert(pushed[pushed.len() - 1] == u);
            }
        }
        if !self.has(&uri) {
            let mut uris: Vec<String> = Vec::new();
            std::mem::swap(&mut uris, &mut self.uris);
            let ghost before = uris@;
            uris.push(uri);
            assert(uris@.map_values(|u: String| u@) == before.map_values(|u: String| u@).push(
                uri@,
            ));
            self.uris = uris;
        }
    }

    /// Removes every member.
    pub fn clear(&mut self)
        ensures
            final(self).uris() == Seq::<Seq<char>>::empty(),
            final(self).wf(),
    {
        self.uris = Vec::new();
    }
}

} // verus!
