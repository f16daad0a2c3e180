//! A small map from entities to plain values.

use crate::identity::Entity;
use crate::plain::Plain;
use vstd::prelude::*;

verus! {

/// A map from entities to values.
#[derive(Clone, Debug)]
pub struct Table<T> {
    entries: Vec<(Entity, T)>,
}

impl<T: View> Table<T> {
    /// Whether the `i`-th entry is the first for the key.
    closed spec fn at(self, key: Seq<char>, i: int) -> bool {
        &&& 0 <= i < self.entries@.len()
        &&& self.entries@[i].0@ == key
        &&& forall|j: int| 0 <= j < i ==> (#[trigger] self.entries@[j]).0@ != key
    }
}

impl<T: View> View for Table<T> {
    type V = Map<Seq<char>, T::V>;

    closed spec fn view(&self) -> Map<Seq<char>, T::V> {
        Map::new(
            |key: Seq<char>| exists|i: int| self.at(key, i),
            |key: Seq<char>| self.entries@[choose|i: int| self.at(key, i)].1@,
        )
    }
}

impl<T: Plain> Table<T> {
    /// A map without entries.
    pub fn new() -> (result: Table<T>)
        ensures
            result@ == Map::<Seq<char>, T::V>::empty(),
    {
        let result = Table { entries: Vec::new() };
        assert(result@ =~= Map::<Seq<char>, T::V>::empty());
        result
    }

    fn position(&self, key: &Entity) -> (result: Option<usize>)
        ensures
            match result {
                Some(i) => self.at(key@, i as int) && self@.contains_key(key@) && self@[key@]
                    == self.entries@[i as int].1@,
                None => !self@.contains_key(key@) && forall|j: int|
                    0 <= j < self.entries@.len() ==> (#[trigger] self.entries@[j]).0@ != key@,
            },
    {
        let mut i: usize = 0;
        while i < self.entries.len()
            invariant
                i <= self.entries@.len(),
                forall|j: int| 0 <= j < i ==> (#[trigger] self.entries@[j]).0@ != key@,
            decreases self.entries@.len() - i,
        {
            if self.entries[i].0.same(key) {
                proof {
                    assert(self.at(key@, i as int));
                    let k = choose|k: int| self.at(key@, k);
                    assert(k == i);
                }
                return Some(i);
            }
            i += 1;
        }
        None
    }

    /// The value of the key.
    pub fn get(&self, key: &Entity) -> (result: Option<&T>)
        ensures
            match result {
                Some(value) => self@.contains_key(key@) && self@[key@] == value@,
                None => !self@.contains_key(key@),
            },
    {
        match self.position(key) {
            Some(i) => Some(&self.entries[i].1),
            None => None,
        }
    }

    /// Gives the key a value.
    pub fn insert(&mut self, key: Entity, value: T)
        ensures
            final(self)@ == old(self)@.insert(key@, value@),
    {
        let ghost before = *self;
        match self.position(&key) {
            Some(i) => {
                self.entries.set(i, (key, value));
                proof {
                    assert forall|k: Seq<char>, j: int| #[trigger] self.at(k, j) <==> before.at(
                        k,
                        j,
                    ) by {
                        assert forall|m: int| 0 <= m < before.entries@.len() implies (
                        #[trigger] self.entries@[m]).0@ == before.entries@[m].0@ by {}
                        if self.at(k, j) {
                            assert forall|m: int| 0 <= m < j implies (
                            #[trigger] before.entries@[m]).0@ != k by {
                                assert(self.entries@[m].0@ != k);
                            }
                        }
                    }
                    assert(self@ =~= before@.insert(key@, value@)) by {
                        assert forall|k: Seq<char>| #[trigger]
                            self@.contains_key(k) implies self@[k] == before@.insert(
                            key@,
                            value@,
                        )[k] by {
                            let j = choose|j: int| self.at(k, j);
                            let b = choose|j: int| before.at(k, j);
                            assert(before.at(k, j) && self.at(k, b));
                            assert(j == b);
                            if k == key@ {
                                assert(self.at(k, i as int));
                                assert(j == i);
                            } else {
                                assert(j != i);
                            }
                        }
                        assert forall|k: Seq<char>| #[trigger]
                            self@.contains_key(k) <==> before@.insert(key@, value@).contains_key(
                            k,
                        ) by {
                            if before@.contains_key(k) {
                                let b = choose|j: int| before.at(k, j);
                                assert(self.at(k, b));
                            }
                            if self@.contains_key(k) {
                                let b = choose|j: int| self.at(k, j);
                                assert(before.at(k, b));
                            }
                            assert(self.at(key@, i as int));
                        }
                    }
                }
            },
            None => {
                self.entries.push((key, value));
                proof {
                    let n = before.entries@.len() as int;
                    assert forall|m: int| 0 <= m < n implies #[trigger] self.entries@[m]
                        == before.entries@[m] by {}
                    assert forall|k: Seq<char>, j: int| before.at(k, j) implies #[trigger] self.at(
                        k,
                        j,
                    ) by {}
                    assert forall|k: Seq<char>, j: int| #[trigger]
                        self.at(k, j) && k != key@ implies before.at(k, j) by {
                        assert forall|m: int| 0 <= m < j implies (#[trigger] before.entries@[m]).0@
                            != k by {
                            assert(self.entries@[m].0@ != k);
                        }
                    }
                    assert(self.at(key@, n));
                    assert(self@ =~= before@.insert(key@, value@)) by {
                        assert forall|k: Seq<char>| #[trigger]
                            self@.contains_key(k) <==> before@.insert(key@, value@).contains_key(
                            k,
                        ) by {
                            if before@.contains_key(k) {
                                let b = choose|j: int| before.at(k, j);
                                assert(self.at(k, b));
                            }
                            if self@.contains_key(k) && k != key@ {
                                let b = choose|j: int| self.at(k, j);
                                assert(before.at(k, b));
                            }
                        }
                        assert forall|k: Seq<char>| #[trigger]
                            self@.contains_key(k) implies self@[k] == before@.insert(
                            key@,
                            value@,
                        )[k] by {
                            let j = choose|j: int| self.at(k, j);
                            if k == key@ {
                                assert(j == n);
                            } else {
                                let b = choose|j: int| before.at(k, j);
                                assert(before.at(k, j));
                                assert(j == b);
                            }
                        }
                    }
                }
            },
        }
    }
}

} // verus!
