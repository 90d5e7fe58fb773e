//! A map from names to values that keeps its entries in the order in which
//! the names first came.

use crate::text::same_text;
use vstd::prelude::*;

verus! {

/// A map keyed by name. No name occurs twice; the entries stand in the order
/// in which their names were first put.
#[derive(Debug, PartialEq)]
pub struct NameMap<V> {
    entries: Vec<(String, V)>,
}

impl<V> NameMap<V> {
    /// The names, in the order of the entries.
    pub closed spec fn names(&self) -> Seq<Seq<char>> {
        self.entries@.map_values(|e: (String, V)| e.0@)
    }

    /// The values, in the order of the entries.
    pub closed spec fn values(&self) -> Seq<V> {
        self.entries@.map_values(|e: (String, V)| e.1)
    }

    /// Holds of every name map: as many names as values, no name twice.
    #[verifier::type_invariant]
    pub open spec fn wf(&self) -> bool {
        self.names().len() == self.values().len() && self.names().no_duplicates()
    }

    /// The map from each name to its value.
    pub open spec fn map(&self) -> Map<Seq<char>, V> {
        Map::new(
            |k: Seq<char>| self.names().contains(k),
            |k: Seq<char>| self.values()[self.names().index_of(k)],
        )
    }

    pub fn new() -> (r: NameMap<V>)
        ensures
            r.names() == Seq::<Seq<char>>::empty(),
            r.values() == Seq::<V>::empty(),
            r.map() == Map::<Seq<char>, V>::empty(),
    {
        let r = NameMap { entries: Vec::new() };
        assert(r.names() =~= Seq::<Seq<char>>::empty());
        assert(r.values() =~= Seq::<V>::empty());
        assert(r.map() =~= Map::<Seq<char>, V>::empty());
        r
    }

    pub fn len(&self) -> (r: usize)
        ensures
            r == self.names().len(),
            r == self.values().len(),
    {
        self.entries.len()
    }

    /// The name of the entry at place `i`.
    pub fn name_at(&self, i: usize) -> (r: &String)
        requires
            i < self.names().len(),
        ensures
            r@ == self.names()[i as int],
    {
        &self.entries[i].0
    }

    /// The value of the entry at place `i`.
    pub fn value_at(&self, i: usize) -> (r: &V)
        requires
            i < self.names().len(),
        ensures
            *r == self.values()[i as int],
    {
        &self.entries[i].1
    }

    /// The place of `name` among the entries.
    pub fn position(&self, name: &str) -> (r: Option<usize>)
        ensures
            r is Some <==> self.names().contains(name@),
            r matches Some(i) ==> i < self.names().len() && self.names()[i as int] == name@,
    {
        let mut i: usize = 0;
        while i < self.entries.len()
            invariant
                i <= self.entries.len(),
                forall|j: int| 0 <= j < i ==> self.names()[j] != name@,
            decreases self.entries.len() - i,
        {
            if same_text(self.entries[i].0.as_str(), name) {
                assert(self.names()[i as int] == name@);
                return Some(i);
            }
            i += 1;
        }
        None
    }

    /// The value that `name` maps to.
    pub fn get(&self, name: &str) -> (r: Option<&V>)
        ensures
            r is Some <==> self.map().dom().contains(name@),
            r matches Some(v) ==> *v == self.map()[name@],
    {
        proof {
            use_type_invariant(self);
        }
        match self.position(name) {
            Some(i) => {
                assert(self.names().index_of(name@) == i);
                Some(&self.entries[i].1)
            },
            None => None,
        }
    }

    /// Maps `name` to `value`. A name that is new enters behind the others; a
    /// name that is there keeps its place.
    pub fn put(&mut self, name: String, value: V)
        ensures
            final(self).map() == old(self).map().insert(name@, value),
            old(self).names().contains(name@) ==> final(self).names() == old(self).names()
                && final(self).values() == old(self).values().update(
                old(self).names().index_of(name@),
                value,
            ),
            !old(self).names().contains(name@) ==> final(self).names() == old(self).names().push(
                name@,
            ) && final(self).values() == old(self).values().push(value),
    {
        proof {
            use_type_invariant(&*self);
        }
        let found = self.position(name.as_str());
        let mut entries: Vec<(String, V)> = Vec::new();
        std::mem::swap(&mut self.entries, &mut entries);
        let ghost names = old(self).names();
        let ghost values = old(self).values();
        match found {
            Some(i) => {
                assert(names.index_of(name@) == i);
                entries.remove(i);
                entries.insert(i, (name, value));
                assert(entries@.map_values(|e: (String, V)| e.0@) =~= names);
                assert(entries@.map_values(|e: (String, V)| e.1) =~= values.update(i as int, value));
            },
            None => {
                entries.push((name, value));
                assert(entries@.map_values(|e: (String, V)| e.0@) =~= names.push(name@));
                assert(entries@.map_values(|e: (String, V)| e.1) =~= values.push(value));
            },
        }
        self.entries = entries;
        proof {
            let after = self.names();
            assert forall|k: Seq<char>| #[trigger]
                self.map().dom().contains(k) == old(self).map().insert(name@, value).dom().contains(
                    k,
                ) by {
                if names.contains(k) {
                    let j = names.index_of(k);
                    assert(after[j] == k);
                }
                if k == name@ {
                    assert(after[if found is Some { found->0 as int } else { names.len() as int }] == k);
                }
            }
            assert forall|k: Seq<char>| #[trigger] self.map().dom().contains(k) implies self.map()[k]
                == old(self).map().insert(name@, value)[k] by {
                let j = after.index_of(k);
                assert(after[j] == k);
                if k != name@ {
                    assert(names[j] == k);
                    assert(names.index_of(k) == j);
                }
            }
            assert(self.map() =~= old(self).map().insert(name@, value));
        }
    }

    /// Takes `name` and its value out of the map.
    pub fn take(&mut self, name: &str) -> (r: Option<V>)
        ensures
            r is Some <==> old(self).map().dom().contains(name@),
            r matches Some(v) ==> v == old(self).map()[name@],
            final(self).map() == old(self).map().remove(name@),
    {
        proof {
            use_type_invariant(&*self);
        }
        let found = self.position(name);
        let ghost names = old(self).names();
        match found {
            Some(i) => {
                assert(names.index_of(name@) == i);
                let mut entries: Vec<(String, V)> = Vec::new();
                std::mem::swap(&mut self.entries, &mut entries);
                let entry = entries.remove(i);
                assert(entries@.map_values(|e: (String, V)| e.0@) =~= names.remove(i as int));
                assert(entries@.map_values(|e: (String, V)| e.1) =~= old(self).values().remove(
                    i as int,
                ));
                self.entries = entries;
                proof {
                    let after = self.names();
                    assert forall|k: Seq<char>| #[trigger]
                        self.map().dom().contains(k) == old(self).map().remove(name@).dom().contains(
                            k,
                        ) by {
                        if names.contains(k) && k != name@ {
                            let j = names.index_of(k);
                            assert(after[if j < i { j } else { j - 1 }] == k);
                        }
                        if after.contains(k) {
                            let j = after.index_of(k);
                            assert(names[if j < i { j } else { j + 1 }] == k);
                        }
                    }
                    assert forall|k: Seq<char>| #[trigger]
                        self.map().dom().contains(k) implies self.map()[k] == old(self).map().remove(
                        name@,
                    )[k] by {
                        let j = after.index_of(k);
                        let j0 = if j < i { j } else { j + 1 };
                        assert(names[j0] == k);
                        assert(names.index_of(k) == j0);
                    }
                    assert(self.map() =~= old(self).map().remove(name@));
                }
                Some(entry.1)
            },
            None => {
                assert(self.map() =~= old(self).map().remove(name@));
                None
            },
        }
    }

    /// Empties the map.
    pub fn clear(&mut self)
        ensures
            final(self).names() == Seq::<Seq<char>>::empty(),
            final(self).values() == Seq::<V>::empty(),
            final(self).map() == Map::<Seq<char>, V>::empty(),
    {
        self.entries = Vec::new();
        assert(self.names() =~= Seq::<Seq<char>>::empty());
        assert(self.values() =~= Seq::<V>::empty());
        assert(self.map() =~= Map::<Seq<char>, V>::empty());
    }
}

} // verus!
