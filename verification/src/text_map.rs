//! Maps from texts to values.
use vstd::prelude::*;
use vstd::string::*;

use crate::text::same_text;

verus! {

/// A map whose keys are texts.
#[derive(Debug)]
pub struct TextMap<V> {
    keys: Vec<String>,
    values: Vec<V>,
}

/// A value that bears the time at which it was last touched.
pub trait Stamped: Sized {
    /// The time at which the value was last touched.
    spec fn stamp(&self) -> u128;

    /// The time at which the value was last touched.
    fn touched_at(&self) -> (at: u128)
        ensures
            at == self.stamp(),
    ;
}

impl<V> View for TextMap<V> {
    type V = Map<Seq<char>, V>;

    closed spec fn view(&self) -> Map<Seq<char>, V> {
        let keys = self.keys.deep_view();
        Map::new(
            |key: Seq<char>| keys.contains(key),
            |key: Seq<char>| self.values@[keys.index_of(key)],
        )
    }
}

impl<V> TextMap<V> {
    /// Each key has one value, and no key is there twice.
    pub closed spec fn wf(&self) -> bool {
        &&& self.keys@.len() == self.values@.len()
        &&& self.keys.deep_view().no_duplicates()
    }

    /// What the map holds is what its lists hold, place by place.
    proof fn lemma_entries(&self)
        requires
            self.wf(),
        ensures
            forall|i: int|
                #![trigger self.keys@[i]]
                0 <= i < self.keys@.len() ==> self@.contains_key(self.keys@[i]@)
                    && self@[self.keys@[i]@] == self.values@[i],
            forall|key: Seq<char>| #[trigger]
                self@.contains_key(key) ==> exists|i: int|
                    0 <= i < self.keys@.len() && #[trigger] self.keys@[i]@ == key,
    {
        let keys = self.keys.deep_view();
        assert forall|i: int|
            #![trigger self.keys@[i]]
            0 <= i < self.keys@.len() implies self@.contains_key(self.keys@[i]@)
            && self@[self.keys@[i]@] == self.values@[i] by {
            assert(keys[i] == self.keys@[i]@);
            assert(keys.contains(keys[i]));
            assert(keys.index_of(keys[i]) == i);
        }
        assert forall|key: Seq<char>| #[trigger] self@.contains_key(key) implies exists|i: int|
            0 <= i < self.keys@.len() && #[trigger] self.keys@[i]@ == key by {
            let i = keys.index_of(key);
            assert(self.keys@[i]@ == key);
        }
    }

    /// The empty map.
    pub fn new() -> (map: Self)
        ensures
            map.wf(),
            map@ == Map::<Seq<char>, V>::empty(),
    {
        let map = TextMap { keys: Vec::new(), values: Vec::new() };
        assert(map@ =~= Map::<Seq<char>, V>::empty());
        map
    }

    /// The place of a key.
    fn find(&self, key: &str) -> (place: Option<usize>)
        requires
            self.wf(),
        ensures
            match place {
                Some(i) => i < self.keys@.len() && self.keys@[i as int]@ == key@
                    && self@.contains_key(key@) && self@[key@] == self.values@[i as int],
                None => !self@.contains_key(key@),
            },
    {
        let mut i: usize = 0;
        while i < self.keys.len()
            invariant
                self.wf(),
                i <= self.keys@.len(),
                forall|j: int| 0 <= j < i ==> (#[trigger] self.keys@[j])@ != key@,
            decreases self.keys@.len() - i,
        {
            if same_text(self.keys[i].as_str(), key) {
                proof {
                    self.lemma_entries();
                }
                return Some(i);
            }
            i += 1;
        }
        proof {
            self.lemma_entries();
        }
        None
    }

    /// The value of a key.
    pub fn get(&self, key: &str) -> (value: Option<&V>)
        requires
            self.wf(),
        ensures
            match value {
                Some(v) => self@.contains_key(key@) && *v == self@[key@],
                None => !self@.contains_key(key@),
            },
    {
        match self.find(key) {
            Some(i) => Some(&self.values[i]),
            None => None,
        }
    }

    /// The number of the keys.
    pub fn len(&self) -> (count: usize)
        requires
            self.wf(),
        ensures
            self@.dom().finite(),
            count == self@.dom().len(),
    {
        proof {
            let keys = self.keys.deep_view();
            keys.unique_seq_to_set();
            assert(self@.dom() =~= keys.to_set());
        }
        self.keys.len()
    }

    /// Takes the entry at the given place out of the map.
    fn remove_at(&mut self, i: usize) -> (value: V)
        requires
            old(self).wf(),
            i < old(self).keys@.len(),
        ensures
            final(self).wf(),
            value == old(self).values@[i as int],
            final(self).keys@ == old(self).keys@.remove(i as int),
            final(self).values@ == old(self).values@.remove(i as int),
            final(self)@ == old(self)@.remove(old(self).keys@[i as int]@),
    {
        let ghost before = *self;
        self.keys.remove(i);
        let value = self.values.remove(i);
        proof {
            let old_keys = before.keys.deep_view();
            let new_keys = self.keys.deep_view();
            assert(new_keys =~= old_keys.remove(i as int));
            assert(new_keys.no_duplicates());
            before.lemma_entries();
            self.lemma_entries();
            let gone = before.keys@[i as int]@;
            assert forall|key: Seq<char>| self@.contains_key(key) == before@.remove(
                gone,
            ).contains_key(key) by {
                if self@.contains_key(key) {
                    let j = choose|j: int|
                        0 <= j < self.keys@.len() && #[trigger] self.keys@[j]@ == key;
                    let k = if j < i {
                        j
                    } else {
                        j + 1
                    };
                    assert(before.keys@[k]@ == key);
                    assert(old_keys[k] == key && old_keys[i as int] == gone);
                }
                if before@.contains_key(key) && key != gone {
                    let k = choose|k: int|
                        0 <= k < before.keys@.len() && #[trigger] before.keys@[k]@ == key;
                    let j = if k < i {
                        k
                    } else {
                        k - 1
                    };
                    assert(self.keys@[j]@ == key);
                }
            }
            assert forall|key: Seq<char>| #[trigger] self@.contains_key(key) implies self@[key]
                == before@[key] by {
                let j = choose|j: int|
                    0 <= j < self.keys@.len() && #[trigger] self.keys@[j]@ == key;
                let k = if j < i {
                    j
                } else {
                    j + 1
                };
                assert(before.keys@[k]@ == key);
                assert(self.values@[j] == before.values@[k]);
            }
            assert(self@ =~= before@.remove(gone));
        }
        value
    }

    /// Takes a key and its value out of the map.
    pub fn remove(&mut self, key: &str) -> (value: Option<V>)
        requires
            old(self).wf(),
        ensures
            final(self).wf(),
            final(self)@ == old(self)@.remove(key@),
            value == if old(self)@.contains_key(key@) {
                Some(old(self)@[key@])
            } else {
                None
            },
    {
        match self.find(key) {
            Some(i) => Some(self.remove_at(i)),
            None => {
                assert(self@ =~= old(self)@.remove(key@));
                None
            },
        }
    }

    /// Gives a key a value.
    pub fn insert(&mut self, key: String, value: V)
        requires
            old(self).wf(),
        ensures
            final(self).wf(),
            final(self)@ == old(self)@.insert(key@, value),
    {
        let _gone = self.remove(key.as_str());
        let ghost before = *self;
        self.keys.push(key);
        self.values.push(value);
        proof {
            let old_keys = before.keys.deep_view();
            let new_keys = self.keys.deep_view();
            assert(new_keys =~= old_keys.push(key@));
            before.lemma_entries();
            assert forall|j: int| 0 <= j < old_keys.len() implies #[trigger] old_keys[j]
                != key@ by {
                assert(before.keys@[j]@ == old_keys[j]);
                assert(before@.contains_key(before.keys@[j]@));
            }
            assert(new_keys.no_duplicates());
            self.lemma_entries();
            assert forall|k: Seq<char>| self@.contains_key(k) == before@.insert(
                key@,
                value,
            ).contains_key(k) by {
                if self@.contains_key(k) {
                    let j = choose|j: int|
                        0 <= j < self.keys@.len() && #[trigger] self.keys@[j]@ == k;
                    if j < old_keys.len() {
                        assert(before.keys@[j]@ == k);
                    }
                }
                if before@.contains_key(k) {
                    let j = choose|j: int|
                        0 <= j < before.keys@.len() && #[trigger] before.keys@[j]@ == k;
                    assert(self.keys@[j]@ == k);
                }
                assert(self.keys@[old_keys.len() as int]@ == key@);
            }
            assert forall|k: Seq<char>| #[trigger] self@.contains_key(k) implies self@[k]
                == before@.insert(key@, value)[k] by {
                let j = choose|j: int| 0 <= j < self.keys@.len() && #[trigger] self.keys@[j]@ == k;
                if j < old_keys.len() {
                    assert(before.keys@[j]@ == k);
                    assert(old_keys[j] == k);
                }
            }
            assert(self@ =~= before@.insert(key@, value));
            assert(self@ =~= old(self)@.insert(key@, value));
        }
    }
}

/// The entries of a map that were touched at the given time or later.
pub open spec fn touched_since<V: Stamped>(map: Map<Seq<char>, V>, cutoff: u128) -> Map<
    Seq<char>,
    V,
> {
    Map::new(
        |key: Seq<char>| map.contains_key(key) && map[key].stamp() >= cutoff,
        |key: Seq<char>| map[key],
    )
}

impl<V: Stamped> TextMap<V> {
    /// Drops the entries that were last touched before the given time.
    pub fn retain_since(&mut self, cutoff: u128)
        requires
            old(self).wf(),
        ensures
            final(self).wf(),
            final(self)@ == touched_since(old(self)@, cutoff),
    {
        let ghost first = self@;
        let mut i: usize = 0;
        while i < self.keys.len()
            invariant
                self.wf(),
                i <= self.keys@.len(),
                first == old(self)@,
                forall|j: int| 0 <= j < i ==> (#[trigger] self.values@[j]).stamp() >= cutoff,
                forall|key: Seq<char>| #[trigger]
                    self@.contains_key(key) ==> first.contains_key(key) && self@[key] == first[key],
                forall|key: Seq<char>| #[trigger]
                    first.contains_key(key) && first[key].stamp() >= cutoff ==> self@.contains_key(
                        key,
                    ),
            decreases self.keys@.len() - i,
        {
            proof {
                self.lemma_entries();
            }
            if self.values[i].touched_at() >= cutoff {
                i += 1;
            } else {
                let _gone = self.remove_at(i);
            }
        }
        proof {
            self.lemma_entries();
            assert forall|key: Seq<char>| #[trigger] self@.contains_key(key) implies self@[key].stamp()
                >= cutoff by {
                let j = choose|j: int|
                    0 <= j < self.keys@.len() && #[trigger] self.keys@[j]@ == key;
                assert(self.values@[j].stamp() >= cutoff);
            }
            assert(self@ =~= touched_since(first, cutoff));
        }
    }
}

} // verus!
