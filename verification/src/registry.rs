//! Long-term storage of Lua values in the registry, addressed by keys that
//! remember which VM minted them.

use vstd::prelude::*;
use crate::value::{Value, spec_same_value};

verus! {

/// An owned reference to a value stored in the registry of one VM.
///
/// Two keys are equal when they name the same slot of the same VM.
#[derive(Debug, PartialEq, Eq, Structural, Hash)]
pub struct RegistryKey {
    pub(crate) state: u64,
    pub(crate) slot: u64,
}

impl RegistryKey {
    /// The VM that minted the key.
    pub closed spec fn spec_state(&self) -> u64 {
        self.state
    }

    /// The registry slot of the key.
    pub closed spec fn spec_slot(&self) -> u64 {
        self.slot
    }

    /// The key of `slot` in the VM `state`.
    pub(crate) fn new(state: u64, slot: u64) -> (r: RegistryKey)
        ensures
            r.spec_state() == state,
            r.spec_slot() == slot,
    {
        RegistryKey { state, slot }
    }

    /// The VM that minted the key.
    pub fn state(&self) -> (r: u64)
        ensures
            r == self.spec_state(),
    {
        self.state
    }

    /// The registry slot of the key.
    pub fn slot(&self) -> (r: u64)
        ensures
            r == self.spec_slot(),
    {
        self.slot
    }
}

/// The slots of a registry: slot `s` lives at position `s - 1`, holding its
/// value and how many keys hold it; a released slot holds nothing.
#[derive(Debug)]
pub struct Registry {
    pub(crate) slots: Vec<Option<(Value, u64)>>,
}

impl Registry {
    /// The stored values by slot.
    pub closed spec fn spec_map(&self) -> Map<u64, Value> {
        Map::new(
            |s: u64| 1 <= s <= self.slots@.len() && self.slots@[s - 1] is Some,
            |s: u64| self.slots@[s - 1]->Some_0.0,
        )
    }

    /// How many keys hold each stored slot.
    pub closed spec fn spec_holders(&self) -> Map<u64, u64> {
        Map::new(
            |s: u64| 1 <= s <= self.slots@.len() && self.slots@[s - 1] is Some,
            |s: u64| self.slots@[s - 1]->Some_0.1,
        )
    }

    /// The number of slots ever handed out.
    pub closed spec fn spec_used(&self) -> nat {
        self.slots@.len()
    }

    /// An empty registry.
    pub fn new() -> (r: Registry)
        ensures
            r.spec_map() == Map::<u64, Value>::empty(),
            r.spec_holders() == Map::<u64, u64>::empty(),
            r.spec_used() == 0,
    {
        let r = Registry { slots: Vec::new() };
        assert(r.spec_map() =~= Map::<u64, Value>::empty());
        assert(r.spec_holders() =~= Map::<u64, u64>::empty());
        r
    }

    /// Stores `value` in a fresh slot, held by one key, and returns the slot.
    pub fn create(&mut self, value: Value) -> (slot: u64)
        requires
            old(self).spec_used() + 1 < u64::MAX,
        ensures
            slot >= 1,
            !old(self).spec_map().contains_key(slot),
            final(self).spec_map() == old(self).spec_map().insert(slot, value),
            final(self).spec_holders() == old(self).spec_holders().insert(slot, 1),
            final(self).spec_used() == old(self).spec_used() + 1,
    {
        self.slots.push(Some((value, 1)));
        let slot = self.slots.len() as u64;
        assert(self.spec_map() =~= old(self).spec_map().insert(slot, value));
        assert(self.spec_holders() =~= old(self).spec_holders().insert(slot, 1));
        slot
    }

    /// The value stored in `slot`; `nil` when the slot holds nothing.
    pub fn get(&self, slot: u64) -> (r: Value)
        ensures
            self.spec_map().contains_key(slot) ==> spec_same_value(r, self.spec_map()[slot]),
            !self.spec_map().contains_key(slot) ==> r is Nil,
    {
        if slot >= 1 && slot <= self.slots.len() as u64 {
            match &self.slots[(slot - 1) as usize] {
                Some(e) => e.0.clone(),
                None => Value::Nil,
            }
        } else {
            Value::Nil
        }
    }

    /// One more key holds `slot`.
    pub fn share(&mut self, slot: u64)
        requires
            old(self).spec_holders().contains_key(slot) ==> old(self).spec_holders()[slot] < u64::MAX,
        ensures
            final(self).spec_map() == old(self).spec_map(),
            old(self).spec_holders().contains_key(slot) ==> final(self).spec_holders() == old(self).spec_holders().insert(
                slot,
                (old(self).spec_holders()[slot] + 1) as u64,
            ),
            !old(self).spec_holders().contains_key(slot) ==> final(self).spec_holders() == old(self).spec_holders(),
            final(self).spec_used() == old(self).spec_used(),
    {
        if slot >= 1 && slot <= self.slots.len() as u64 {
            let i = (slot - 1) as usize;
            if self.slots[i].is_some() {
                let taken = self.slots.remove(i);
                match taken {
                    Some(e) => {
                        self.slots.insert(i, Some((e.0, e.1 + 1)));
                    },
                    None => {
                        self.slots.insert(i, None);
                    },
                }
                assert(self.spec_map() =~= old(self).spec_map());
                assert(self.spec_holders() =~= old(self).spec_holders().insert(
                    slot,
                    (old(self).spec_holders()[slot] + 1) as u64,
                ));
                return;
            }
        }
        assert(self.spec_map() =~= old(self).spec_map());
        assert(self.spec_holders() =~= old(self).spec_holders());
    }

    /// One key of `slot` lets go: the slot is released with its last key.
    pub fn remove(&mut self, slot: u64)
        ensures
            old(self).spec_holders().contains_key(slot) && old(self).spec_holders()[slot] > 1 ==> final(self).spec_map()
                == old(self).spec_map() && final(self).spec_holders() == old(self).spec_holders().insert(
                slot,
                (old(self).spec_holders()[slot] - 1) as u64,
            ),
            !(old(self).spec_holders().contains_key(slot) && old(self).spec_holders()[slot] > 1) ==> final(self).spec_map()
                == old(self).spec_map().remove(slot) && final(self).spec_holders() == old(self).spec_holders().remove(slot),
            final(self).spec_used() == old(self).spec_used(),
    {
        if slot >= 1 && slot <= self.slots.len() as u64 {
            let i = (slot - 1) as usize;
            let n: u64 = match &self.slots[i] {
                Some(e) => e.1,
                None => 0,
            };
            if n > 1 {
                let taken = self.slots.remove(i);
                match taken {
                    Some(e) => {
                        self.slots.insert(i, Some((e.0, n - 1)));
                    },
                    None => {
                        self.slots.insert(i, None);
                    },
                }
                assert(self.spec_map() =~= old(self).spec_map());
                assert(self.spec_holders() =~= old(self).spec_holders().insert(slot, (n - 1) as u64));
                return;
            }
            self.slots.set(i, None);
        }
        assert(self.spec_map() =~= old(self).spec_map().remove(slot));
        assert(self.spec_holders() =~= old(self).spec_holders().remove(slot));
    }

    /// Replaces the value stored in a live `slot`; its keys stay.
    pub fn replace(&mut self, slot: u64, value: Value)
        ensures
            old(self).spec_map().contains_key(slot) ==> final(self).spec_map() == old(self).spec_map().insert(slot, value),
            !old(self).spec_map().contains_key(slot) ==> final(self).spec_map() == old(self).spec_map(),
            final(self).spec_holders() == old(self).spec_holders(),
            final(self).spec_used() == old(self).spec_used(),
    {
        if slot >= 1 && slot <= self.slots.len() as u64 {
            let i = (slot - 1) as usize;
            let n: Option<u64> = match &self.slots[i] {
                Some(e) => Some(e.1),
                None => None,
            };
            if let Some(n) = n {
                self.slots.set(i, Some((value, n)));
                assert(self.spec_map() =~= old(self).spec_map().insert(slot, value));
                assert(self.spec_holders() =~= old(self).spec_holders());
                return;
            }
        }
        assert(self.spec_map() =~= old(self).spec_map());
        assert(self.spec_holders() =~= old(self).spec_holders());
    }
}

} // verus!
