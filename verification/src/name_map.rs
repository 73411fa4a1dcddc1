//! A map keyed by text.

use vstd::prelude::*;
use crate::search;
use crate::text::same_text;

verus! {

/// A map from names to values, kept in the order of first insertion. It can be
/// walked and copied, and its view holds the values by their own views.
pub struct NameMap<V> {
    entries: Vec<(String, V)>,
}

/// A value of which a copy with the same view can be made.
pub trait Duplicate: View + Sized {
    /// A copy of the value.
    fn duplicate(&self) -> (copy: Self)
        ensures
            copy@ == self@,
    ;
}

impl Duplicate for u32 {
    fn duplicate(&self) -> (copy: u32) {
        *self
    }
}

/// Holds of the entries under `name`.
pub open spec fn named<V>(name: Seq<char>) -> spec_fn((String, V)) -> bool {
    |entry: (String, V)| entry.0@ == name
}

impl<V: View> View for NameMap<V> {
    type V = Map<Seq<char>, V::V>;

    closed spec fn view(&self) -> Map<Seq<char>, V::V> {
        Map::new(
            |name: Seq<char>| search::first_index(self.entries@, named(name)) is Some,
            |name: Seq<char>| self.entries@[search::first_index(self.entries@, named(name))->0].1@,
        )
    }
}

impl<V: View> NameMap<V> {
    /// The map without entries.
    pub fn new() -> (map: Self)
        ensures
            map@ == Map::<Seq<char>, V::V>::empty(),
    {
        let map = NameMap { entries: Vec::new() };
        assert(map@ =~= Map::<Seq<char>, V::V>::empty());
        map
    }

    fn position(&self, name: &str) -> (found: Option<usize>)
        ensures
            match found {
                Some(i) => search::is_first(self.entries@, named(name@), i as int) && search::first_index(self.entries@, named(name@)) == Some(i as int),
                None => search::first_index(self.entries@, named(name@)) is None,
            },
    {
        let mut i: usize = 0;
        while i < self.entries.len()
            invariant
                i <= self.entries@.len(),
                forall|j: int| 0 <= j < i ==> (#[trigger] self.entries@[j]).0@ != name@,
            decreases self.entries@.len() - i,
        {
            if same_text(self.entries[i].0.as_str(), name) {
                proof {
                    search::lemma_first(self.entries@, named::<V>(name@), i as int);
                }
                return Some(i);
            }
            i = i + 1;
        }
        None
    }

    /// Whether there is a value under `name`.
    pub fn contains_key(&self, name: &str) -> (found: bool)
        ensures
            found == self@.contains_key(name@),
    {
        self.position(name).is_some()
    }

    /// The value under `name`.
    pub fn get(&self, name: &str) -> (value: Option<&V>)
        ensures
            match value {
                Some(v) => self@.contains_key(name@) && v@ == self@[name@],
                None => !self@.contains_key(name@),
            },
    {
        match self.position(name) {
            Some(i) => Some(&self.entries[i].1),
            None => None,
        }
    }

    /// The names that there are values under, each once.
    pub fn names(&self) -> (names: Vec<String>)
        ensures
            forall|i: int| 0 <= i < names@.len() ==> self@.contains_key((#[trigger] names@[i])@),
            forall|name: Seq<char>| #[trigger] self@.contains_key(name) ==> exists|i: int| 0 <= i < names@.len() && names@[i]@ == name,
            forall|i: int, j: int| 0 <= i < j < names@.len() ==> (#[trigger] names@[i])@ != (#[trigger] names@[j])@,
    {
        let mut names: Vec<String> = Vec::new();
        let ghost mut places: Seq<int> = Seq::empty();
        let mut i: usize = 0;
        while i < self.entries.len()
            invariant
                i <= self.entries@.len(),
                places.len() == names@.len(),
                forall|j: int|
                    0 <= j < places.len() ==> #[trigger] places[j] < i && search::is_first(
                        self.entries@,
                        named::<V>(names@[j]@),
                        places[j],
                    ),
                forall|j: int, k: int| 0 <= j < k < places.len() ==> #[trigger] places[j] < #[trigger] places[k],
                forall|k: int|
                    0 <= k < i && search::is_first(self.entries@, named::<V>(self.entries@[k].0@), k) ==> #[trigger] places.contains(k),
            decreases self.entries@.len() - i,
        {
            let ghost before = places;
            let first = self.position(self.entries[i].0.as_str());
            if let Some(place) = first {
                if place == i {
                    names.push(self.entries[i].0.clone());
                    proof {
                        places = places.push(i as int);
                        assert(places[before.len() as int] == i);
                        assert forall|k: int| before.contains(k) implies #[trigger] places.contains(k) by {
                            let j = choose|j: int| 0 <= j < before.len() && before[j] == k;
                            assert(places[j] == k);
                        }
                    }
                }
            }
            proof {
                if search::is_first(self.entries@, named::<V>(self.entries@[i as int].0@), i as int) {
                    search::lemma_first(self.entries@, named::<V>(self.entries@[i as int].0@), i as int);
                    assert(places.contains(i as int));
                }
            }
            i = i + 1;
        }
        proof {
            assert forall|j: int| 0 <= j < names@.len() implies self@.contains_key((#[trigger] names@[j])@) by {
                search::lemma_first(self.entries@, named::<V>(names@[j]@), places[j]);
            }
            assert forall|name: Seq<char>| #[trigger] self@.contains_key(name) implies exists|j: int|
                0 <= j < names@.len() && names@[j]@ == name by {
                let k = search::first_index(self.entries@, named::<V>(name))->0;
                assert(search::is_first(self.entries@, named::<V>(name), k));
                assert(places.contains(k));
                let j = choose|j: int| 0 <= j < places.len() && places[j] == k;
                assert(names@[j]@ == name);
            }
            assert forall|j: int, k: int| 0 <= j < k < names@.len() implies (#[trigger] names@[j])@ != (#[trigger] names@[k])@ by {
                if names@[j]@ == names@[k]@ {
                    search::lemma_first(self.entries@, named::<V>(names@[j]@), places[j]);
                    search::lemma_first(self.entries@, named::<V>(names@[k]@), places[k]);
                }
            }
        }
        names
    }

    /// Puts `value` under `name`, in place of what was there.
    pub fn insert(&mut self, name: String, value: V)
        ensures
            final(self)@ == old(self)@.insert(name@, value@),
    {
        let ghost before = self.entries@;
        let ghost key = name@;
        match self.position(name.as_str()) {
            Some(i) => {
                self.entries[i] = (name, value);
                proof {
                    assert forall|k: Seq<char>|
                        #![trigger search::first_index(self.entries@, named::<V>(k))]
                        search::first_index(self.entries@, named::<V>(k)) == search::first_index(before, named::<V>(k)) by {
                        search::lemma_first_agrees(self.entries@, before, named::<V>(k));
                    }
                }
            },
            None => {
                self.entries.push((name, value));
                proof {
                    assert forall|k: Seq<char>|
                        #![trigger search::first_index(self.entries@, named::<V>(k))]
                        search::first_index(self.entries@, named::<V>(k)) == (match search::first_index(before, named::<V>(k)) {
                            Some(i) => Some(i),
                            None => if k == key {
                                Some(before.len() as int)
                            } else {
                                None
                            },
                        }) by {
                        search::lemma_first_push(before, self.entries@.last(), named::<V>(k));
                        assert(self.entries@ =~= before.push(self.entries@.last()));
                    }
                }
            },
        }
        assert(self@ =~= old(self)@.insert(key, value@));
    }
}

impl<V: Duplicate> Clone for NameMap<V> {
    fn clone(&self) -> (copy: Self)
        ensures
            copy@ == self@,
    {
        let mut entries: Vec<(String, V)> = Vec::new();
        let mut i: usize = 0;
        while i < self.entries.len()
            invariant
                i <= self.entries@.len(),
                entries@.len() == i,
                forall|j: int|
                    0 <= j < i ==> (#[trigger] entries@[j]).0@ == self.entries@[j].0@ && entries@[j].1@ == self.entries@[j].1@,
            decreases self.entries@.len() - i,
        {
            entries.push((self.entries[i].0.clone(), self.entries[i].1.duplicate()));
            i = i + 1;
        }
        let copy = NameMap { entries };
        proof {
            assert forall|k: Seq<char>|
                #![trigger search::first_index(copy.entries@, named::<V>(k))]
                search::first_index(copy.entries@, named::<V>(k)) == search::first_index(self.entries@, named::<V>(k)) by {
                search::lemma_first_agrees(copy.entries@, self.entries@, named::<V>(k));
            }
            assert forall|k: Seq<char>| self@.contains_key(k) implies #[trigger] copy@[k] == self@[k] by {
                let i = search::first_index(self.entries@, named::<V>(k))->0;
                assert(search::is_first(self.entries@, named::<V>(k), i));
                assert(copy.entries@[i].1@ == self.entries@[i].1@);
            }
            assert(copy@ =~= self@);
        }
        copy
    }
}

} // verus!
