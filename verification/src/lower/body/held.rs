//! What is held for a binding.

use vstd::prelude::*;

verus! {

/// What is held for each binding that something is held for.
pub struct Held<T> {
    pub held: Vec<Option<T>>,
}

impl<T> View for Held<T> {
    type V = Map<u32, T>;

    open spec fn view(&self) -> Map<u32, T> {
        Map::new(
            |key: u32| (key as int) < self.held@.len() && self.held@[key as int] is Some,
            |key: u32| self.held@[key as int]->0,
        )
    }
}

/// What a table holds for `key`.
pub open spec fn held_for<T>(held: Map<u32, T>, key: u32) -> Option<T> {
    if held.dom().contains(key) {
        Some(held[key])
    } else {
        None
    }
}

impl<T: Copy> Held<T> {
    /// Nothing held yet.
    pub fn new() -> (table: Held<T>)
        ensures
            table@ == Map::<u32, T>::empty(),
    {
        let table = Held { held: Vec::new() };
        assert(table@ =~= Map::<u32, T>::empty());
        table
    }

    /// What is held for `key`.
    pub fn get(&self, key: u32) -> (found: Option<T>)
        ensures
            found == held_for(self@, key),
    {
        if (key as usize) < self.held.len() {
            self.held[key as usize]
        } else {
            None
        }
    }

    /// Holds `value` for `key`.
    pub fn insert(&mut self, key: u32, value: T)
        ensures
            final(self)@ == old(self)@.insert(key, value),
    {
        let ghost before = self@;
        while self.held.len() <= key as usize
            invariant
                self@ == before,
            decreases (key as int) + 1 - self.held.len(),
        {
            let ghost had = self@;
            self.held.push(None);
            assert(self@ =~= had);
        }
        self.held.set(key as usize, Some(value));
        assert(self@ =~= before.insert(key, value));
    }

    /// The same held anew.
    pub fn copy(&self) -> (table: Held<T>)
        ensures
            table@ == self@,
    {
        let mut held: Vec<Option<T>> = Vec::new();
        let mut i: usize = 0;
        while i < self.held.len()
            invariant
                i <= self.held.len(),
                held@.len() == i,
                forall|k: int| 0 <= k < i ==> held@[k] == self.held@[k],
            decreases self.held.len() - i,
        {
            held.push(self.held[i]);
            i += 1;
        }
        let table = Held { held };
        assert(table@ =~= self@);
        table
    }
}

} // verus!
