//! Maps that keep their keys in order.
use crate::set::{Element, OrderedSet};
use vstd::prelude::*;

verus! {

/// A map whose keys are held in ascending order, each with its value.
#[derive(Debug)]
pub struct OrderedMap<E, T> {
    pub keys: OrderedSet<E>,
    pub values: Vec<T>,
}

impl<E: Element, T> View for OrderedMap<E, T> {
    type V = Map<E::V, T>;

    open spec fn view(&self) -> Map<E::V, T> {
        Map::new(
            |key: E::V| self.keys@.contains(key),
            |key: E::V| self.values@[self.keys@.index_of(key)],
        )
    }
}

impl<E: Element, T> OrderedMap<E, T> {
    /// Whether the keys stand in order and each has a value.
    pub open spec fn well_formed(self) -> bool {
        &&& self.keys.well_formed()
        &&& self.keys@.len() == self.values@.len()
    }

    /// A key stands at one position.
    proof fn key_stands_once(self, i: int)
        requires
            self.well_formed(),
            0 <= i < self.keys@.len(),
        ensures
            self.keys@.contains(self.keys@[i]),
            self.keys@.index_of(self.keys@[i]) == i,
    {
        let key = self.keys@[i];
        assert(self.keys@.contains(key));
        let j = self.keys@.index_of(key);
        assert(0 <= j < self.keys@.len() && self.keys@[j] == key);
        if i < j {
            assert(E::key_before(self.keys@[i], self.keys@[j]));
            E::is_asymmetric(key, key);
        }
        if j < i {
            assert(E::key_before(self.keys@[j], self.keys@[i]));
            E::is_asymmetric(key, key);
        }
    }

    /// The empty map.
    pub fn new() -> (map: OrderedMap<E, T>)
        ensures
            map.well_formed(),
            map@ == Map::<E::V, T>::empty(),
    {
        let map = OrderedMap { keys: OrderedSet::new(), values: Vec::new() };
        assert(map@ =~= Map::<E::V, T>::empty());
        map
    }

    /// The value of `key`, where the map has one.
    pub fn get(&self, key: &E) -> (found: Option<&T>)
        requires
            self.well_formed(),
        ensures
            match found {
                Some(value) => self@.dom().contains(key.key()) && self@[key.key()] == *value,
                None => !self@.dom().contains(key.key()),
            },
    {
        match self.keys.find(key) {
            Some(at) => {
                proof {
                    self.key_stands_once(at as int);
                }
                Some(&self.values[at])
            },
            None => None,
        }
    }

    /// Gives `key` the value `value`, in place of the one it has.
    pub fn insert(&mut self, key: E, value: T)
        requires
            old(self).well_formed(),
        ensures
            final(self).well_formed(),
            final(self)@ == old(self)@.insert(key.key(), value),
    {
        let ghost before = *self;
        let ghost k = key.key();
        match self.keys.find(&key) {
            Some(at) => {
                self.values.set(at, value);
                proof {
                    assert(self.keys@ == before.keys@);
                    before.key_stands_once(at as int);
                    assert forall|other: E::V| self.keys@.contains(other) implies #[trigger] self@[other]
                        == before@.insert(k, value)[other] by {
                        let i = self.keys@.index_of(other);
                        before.key_stands_once(i);
                    }
                    assert(self@ =~= before@.insert(k, value));
                }
            },
            None => {
                let at: usize = self.keys.place(key);
                self.values.insert(at, value);
                proof {
                    let keys = self.keys@;
                    assert(keys == before.keys@.insert(at as int, k));
                    assert forall|other: E::V| #[trigger] keys.contains(other) <==> before.keys@.contains(
                        other,
                    ) || other == k by {
                        if before.keys@.contains(other) {
                            let i = before.keys@.index_of(other);
                            let n = if i < at { i } else { i + 1 };
                            assert(keys[n] == other);
                        }
                        if other == k {
                            assert(keys[at as int] == other);
                        }
                        if keys.contains(other) && other != k {
                            let n = keys.index_of(other);
                            let i = if n < at { n } else { n - 1 };
                            assert(before.keys@[i] == other);
                        }
                    }
                    assert forall|other: E::V| #[trigger] keys.contains(other) implies self@[other]
                        == before@.insert(k, value)[other] by {
                        let n = keys.index_of(other);
                        self.key_stands_once(n);
                        if n == at {
                        } else {
                            let i = if n < at { n } else { n - 1 };
                            before.key_stands_once(i);
                        }
                    }
                    assert(self@ =~= before@.insert(k, value));
                }
            },
        }
    }
}

} // verus!
