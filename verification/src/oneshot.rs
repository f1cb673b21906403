use vstd::prelude::*;

use crate::key::Key;

verus! {

/// What a one-shot latch fires for a reading, given the previous reading:
/// the key, exactly when one is read and it is not the one already latched.
pub open spec fn spec_fire(prev: Option<Key>, reading: Option<Key>) -> Option<Key> {
    if reading is Some && reading != prev {
        reading
    } else {
        None
    }
}

/// The caller-side edge latch that turns the scanner's raw per-poll readings
/// into one logical action per physical press.
///
/// The scanner reports `Some(key)` on every poll taken while a key is held;
/// the latch remembers the previously reported reading and fires only on a
/// transition from nothing, or from a different key, to a specific key. A
/// `None` reading resets it, so the same key can fire again after release.
pub struct OneShot {
    pub last: Option<Key>,
}

impl OneShot {
    /// A latch that has seen no reading: the first key read fires.
    pub fn new() -> (latch: OneShot)
        ensures
            latch.last is None,
    {
        OneShot { last: None }
    }

    /// Feeds one poll reading through the latch and returns the key to act
    /// on, if this reading is a fresh press.
    pub fn on_poll(&mut self, reading: Option<Key>) -> (fired: Option<Key>)
        ensures
            final(self).last == reading,
            fired == spec_fire(old(self).last, reading),
    {
        let fired = match reading {
            Some(key) => match self.last {
                Some(prev) => if prev == key {
                    None
                } else {
                    Some(key)
                },
                None => Some(key),
            },
            None => None,
        };
        self.last = reading;
        fired
    }
}

/// While one key stays held, the latch fires at most on the first of the
/// polls: a second identical reading fires nothing.
pub proof fn lemma_held_key_fires_once(prev: Option<Key>, reading: Option<Key>)
    requires
        reading is Some,
    ensures
        spec_fire(reading, reading) is None,
        spec_fire(prev, reading) is Some <==> prev != reading,
{
}

} // verus!
