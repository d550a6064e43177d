use vstd::prelude::*;

verus! {

use crate::key_input::NUM_KEYS;

/// Boolean key-down table with consuming queries: reading a key through
/// `check_key` clears it, so each press is observed at most once.
pub struct Input {
    /// One entry per key: `true` while the press is still unobserved.
    pub keys: Vec<bool>,
}

impl View for Input {
    type V = Seq<bool>;

    open spec fn view(&self) -> Seq<bool> {
        self.keys@
    }
}

impl Input {
    /// Structural invariant: one slot per key.
    pub open spec fn wf(self) -> bool {
        self.keys.len() == NUM_KEYS
    }

    /// A table with every key up.
    pub fn new() -> (k: Input)
        ensures
            k.wf(),
            forall|i: int| 0 <= i < NUM_KEYS ==> !k@[i],
    {
        Input { keys: vec![false; NUM_KEYS] }
    }

    /// Record that a key went down.
    pub fn key_press(&mut self, key_number: usize)
        requires
            old(self).wf(),
            key_number < NUM_KEYS,
        ensures
            final(self).wf(),
            final(self)@ == old(self)@.update(key_number as int, true),
    {
        self.keys.set(key_number, true);
    }

    /// Whether the key is currently down, clearing it as a side effect.
    pub fn check_key(&mut self, key_number: u8) -> (r: bool)
        requires
            old(self).wf(),
            key_number < NUM_KEYS,
        ensures
            final(self).wf(),
            r == old(self)@[key_number as int],
            final(self)@ == old(self)@.update(key_number as int, false),
    {
        let key = self.keys[key_number as usize];
        self.keys.set(key_number as usize, false);
        key
    }

    /// The lowest-numbered key currently down, resetting the whole table as a
    /// side effect; `None`, changing nothing, when no key is down.
    pub fn check_all_keys(&mut self) -> (r: Option<u8>)
        requires
            old(self).wf(),
        ensures
            final(self).wf(),
            r is Some <==> exists|i: int| 0 <= i < NUM_KEYS && old(self)@[i],
            match r {
                Some(key) => {
                    &&& key < NUM_KEYS
                    &&& old(self)@[key as int]
                    &&& forall|i: int| 0 <= i < key ==> !old(self)@[i]
                    &&& forall|i: int| 0 <= i < NUM_KEYS ==> !final(self)@[i]
                },
                None => *final(self) == *old(self),
            },
    {
        let mut i: usize = 0;
        while i < NUM_KEYS
            invariant
                self.wf(),
                *self == *old(self),
                i <= NUM_KEYS,
                forall|n: int| 0 <= n < i ==> !self@[n],
            decreases NUM_KEYS - i,
        {
            if self.keys[i] {
                proof {
                    assert(old(self)@[i as int]);
                }
                self.reset();
                return Some(i as u8);
            }
            i = i + 1;
        }
        None
    }

    /// Mark every key up.
    fn reset(&mut self)
        requires
            old(self).wf(),
        ensures
            final(self).wf(),
            forall|i: int| 0 <= i < NUM_KEYS ==> !final(self)@[i],
    {
        self.keys = vec![false; NUM_KEYS];
    }
}

} // verus!
