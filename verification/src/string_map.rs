//! A map from text to values.
use vstd::prelude::*;

use crate::text::same_text;

verus! {

/// A map whose keys are text. Entries stay in the order in which their keys
/// first came.
#[derive(Debug, PartialEq, Eq)]
pub struct StringMap<V> {
    entries: Vec<(String, V)>,
}

impl<V> View for StringMap<V> {
    type V = Map<Seq<char>, V>;

    closed spec fn view(&self) -> Map<Seq<char>, V> {
        Map::new(
            |k: Seq<char>| self.keys().contains(k),
            |k: Seq<char>| self.entries@[self.keys().index_of(k)].1,
        )
    }
}

impl<V> StringMap<V> {
    /// The keys, in the order in which they first came.
    pub closed spec fn keys(&self) -> Seq<Seq<char>> {
        Seq::new(self.entries@.len(), |i: int| self.entries@[i].0@)
    }

    #[verifier::type_invariant]
    spec fn keys_are_distinct(self) -> bool {
        self.keys().no_duplicates()
    }

    pub fn new() -> (map: Self)
        ensures
            map@ == Map::<Seq<char>, V>::empty(),
            map.keys() == Seq::<Seq<char>>::empty(),
    {
        let map = StringMap { entries: Vec::new() };
        assert(map@ =~= Map::<Seq<char>, V>::empty());
        map
    }

    pub fn len(&self) -> (n: usize)
        ensures
            n == self.keys().len(),
            self.keys().no_duplicates(),
            forall|k: Seq<char>| self.keys().contains(k) <==> #[trigger] self@.contains_key(k),
    {
        proof {
            use_type_invariant(self);
        }
        self.entries.len()
    }

    /// The key of the entry at `i`.
    pub fn key_at(&self, i: usize) -> (key: &String)
        requires
            i < self.keys().len(),
        ensures
            key@ == self.keys()[i as int],
    {
        &self.entries[i].0
    }

    /// The value of the entry at `i`.
    pub fn value_at(&self, i: usize) -> (value: &V)
        requires
            i < self.keys().len(),
        ensures
            self@.contains_key(self.keys()[i as int]),
            *value == self@[self.keys()[i as int]],
    {
        proof {
            use_type_invariant(self);
            let k = self.keys()[i as int];
            assert(self.keys().contains(k));
            assert(self.keys()[self.keys().index_of(k)] == k);
        }
        &self.entries[i].1
    }

    /// Where `key` is, if it is there.
    fn position(&self, key: &str) -> (at: Option<usize>)
        ensures
            match at {
                Some(i) => i < self.keys().len() && self.keys()[i as int] == key@,
                None => !self.keys().contains(key@),
            },
    {
        let mut i: usize = 0;
        while i < self.entries.len()
            invariant
                i <= self.entries@.len(),
                forall|j: int| 0 <= j < i ==> self.keys()[j] != key@,
            decreases self.entries@.len() - i,
        {
            if same_text(&self.entries[i].0, key) {
                return Some(i);
            }
            i = i + 1;
        }
        None
    }

    pub fn get(&self, key: &str) -> (value: Option<&V>)
        ensures
            match value {
                Some(v) => self@.contains_key(key@) && *v == self@[key@],
                None => !self@.contains_key(key@),
            },
    {
        match self.position(key) {
            Some(i) => Some(self.value_at(i)),
            None => None,
        }
    }

    /// Sets the value of `key`, which joins at the end if it is new.
    pub fn insert(&mut self, key: String, value: V)
        ensures
            final(self)@ == old(self)@.insert(key@, value),
            final(self).keys() == (if old(self)@.contains_key(key@) {
                old(self).keys()
            } else {
                old(self).keys().push(key@)
            }),
    {
        proof {
            use_type_invariant(&*self);
        }
        let ghost before = *self;
        let ghost k = key@;
        let at = self.position(key.as_str());
        let mut entries: Vec<(String, V)> = Vec::new();
        std::mem::swap(&mut entries, &mut self.entries);
        match at {
            Some(i) => {
                entries.set(i, (key, value));
                let ghost after = StringMap { entries };
                proof {
                    assert(after.keys() =~= before.keys());
                    assert(before.keys().contains(k));
                    assert(after@ =~= before@.insert(k, value)) by {
                        assert forall|x: Seq<char>|
                            before.keys().contains(x) && x != k implies #[trigger] after@[x]
                            == before@[x] by {
                            let j = before.keys().index_of(x);
                            assert(before.keys()[j] == x);
                        }
                        assert(before.keys()[before.keys().index_of(k)] == k);
                    }
                }
            },
            None => {
                entries.push((key, value));
                let ghost after = StringMap { entries };
                proof {
                    let n = before.keys().len() as int;
                    assert(after.keys() =~= before.keys().push(k));
                    assert forall|x: Seq<char>|
                        after.keys().contains(x) <==> before.keys().contains(x) || x == k by {
                        assert(after.keys()[n] == k);
                        if before.keys().contains(x) {
                            assert(after.keys()[before.keys().index_of(x)] == x);
                        }
                    }
                    assert(after@ =~= before@.insert(k, value)) by {
                        assert forall|x: Seq<char>|
                            before.keys().contains(x) implies #[trigger] after@[x]
                            == before@[x] by {
                            let j = before.keys().index_of(x);
                            assert(after.keys()[j] == x);
                            assert(after.keys()[after.keys().index_of(x)] == x);
                        }
                        assert(after.keys()[after.keys().index_of(k)] == k);
                    }
                }
            },
        }
        self.entries = entries;
    }
}

/// A key has a value exactly when it is listed.
pub proof fn a_key_is_in_the_map_when_it_is_listed<V>(map: StringMap<V>, key: Seq<char>)
    ensures
        map@.contains_key(key) <==> map.keys().contains(key),
{
}

} // verus!
