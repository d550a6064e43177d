use vstd::prelude::*;

verus! {

/// Number of keys on the hexadecimal keypad.
pub const NUM_KEYS: usize = 16;

/// Boolean key-down table for the 16-key keypad, fed by the event loop and
/// queried by the engine's keyboard opcodes. `check_key` is a non-consuming
/// query; `check_all_keys` reports the lowest key currently down and resets
/// the whole table as a side effect.
pub struct KeyInput {
    /// One entry per key: `true` while the key is held down.
    pub keys: Vec<bool>,
}

impl View for KeyInput {
    type V = Seq<bool>;

    open spec fn view(&self) -> Seq<bool> {
        self.keys@
    }
}

impl KeyInput {
    /// Structural invariant: one slot per key.
    pub open spec fn wf(self) -> bool {
        self.keys.len() == NUM_KEYS
    }

    /// A table with every key up.
    pub fn new() -> (k: KeyInput)
        ensures
            k.wf(),
            forall|i: int| 0 <= i < NUM_KEYS ==> !k@[i],
    {
        KeyInput { keys: vec![false; NUM_KEYS] }
    }

    /// Record that a key went down.
    pub fn key_press(&mut self, key_number: usize)
        requires
            old(self).wf(),
            key_number < NUM_KEYS,
        ensures
            final(self).wf(),
            final(self)@ == old(self)@.update(key_number as int, true),
    {
        self.keys.set(key_number, true);
    }

    /// Record that a key went up.
    pub fn key_release(&mut self, key_number: usize)
        requires
            old(self).wf(),
            key_number < NUM_KEYS,
        ensures
            final(self).wf(),
            final(self)@ == old(self)@.update(key_number as int, false),
    {
        self.keys.set(key_number, false);
    }

    /// Whether the key is currently down; a non-consuming query.
    pub fn check_key(&self, key_number: u8) -> (r: bool)
        requires
            self.wf(),
            key_number < NUM_KEYS,
        ensures
            r == self@[key_number as int],
    {
        self.keys[key_number as usize]
    }

    /// The lowest-numbered key currently down, resetting the whole table as a
    /// side effect; `None`, changing nothing, when no key is down.
    pub fn check_all_keys(&mut self) -> (r: Option<u8>)
        requires
            old(self).wf(),
        ensures
            final(self).wf(),
            r is Some <==> exists|i: int| 0 <= i < NUM_KEYS && old(self)@[i],
            match r {
                Some(key) => {
                    &&& key < NUM_KEYS
                    &&& old(self)@[key as int]
                    &&& forall|i: int| 0 <= i < key ==> !old(self)@[i]
                    &&& forall|i: int| 0 <= i < NUM_KEYS ==> !final(self)@[i]
                },
                None => *final(self) == *old(self),
            },
    {
        let mut i: usize = 0;
        while i < NUM_KEYS
            invariant
                self.wf(),
                *self == *old(self),
                i <= NUM_KEYS,
                forall|n: int| 0 <= n < i ==> !self@[n],
            decreases NUM_KEYS - i,
        {
            if self.keys[i] {
                proof {
                    assert(old(self)@[i as int]);
                }
                self.reset();
                return Some(i as u8);
            }
            i = i + 1;
        }
        None
    }

    /// Mark every key up.
    pub fn reset(&mut self)
        requires
            old(self).wf(),
        ensures
            final(self).wf(),
            forall|i: int| 0 <= i < NUM_KEYS ==> !final(self)@[i],
    {
        self.keys = vec![false; NUM_KEYS];
    }
}

} // verus!
