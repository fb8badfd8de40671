//! Per-VM application data: one value per type key, each behind its own
//! borrow state, with a VM-wide count of outstanding borrows that blocks any
//! change of the store while a borrow is live.

use vstd::prelude::*;
use crate::error::Error;
use crate::keyed::KeyedVec;
use crate::value::Value;

verus! {

/// One stored value and its borrow state.
#[derive(Debug)]
pub struct AppSlot {
    /// The stored value.
    pub value: Value,
    /// How many shared borrows are live.
    pub shared: u64,
    /// Whether an exclusive borrow is live.
    pub exclusive: bool,
}

/// A live shared borrow of the value stored under `key`.
#[derive(Debug)]
pub struct AppDataRef {
    pub(crate) key: u64,
}

/// A live exclusive borrow of the value stored under `key`.
#[derive(Debug)]
pub struct AppDataRefMut {
    pub(crate) key: u64,
}

impl AppDataRef {
    /// The type key that the borrow refers to.
    pub closed spec fn spec_key(&self) -> u64 {
        self.key
    }
}

impl AppDataRefMut {
    /// The type key that the borrow refers to.
    pub closed spec fn spec_key(&self) -> u64 {
        self.key
    }
}

/// The error raised when the store is changed while a borrow is live.
pub open spec fn spec_conflict_error(e: Error) -> bool {
    e matches Error::RuntimeError(m) && m@ == "cannot mutably borrow app data container"@
}

/// The error raised by a shared borrow of an exclusively borrowed value.
pub open spec fn spec_mut_borrowed_error(e: Error) -> bool {
    e matches Error::RuntimeError(m) && m@ == "app data is currently mutably borrowed"@
}

/// The error raised by an exclusive borrow of a borrowed value.
pub open spec fn spec_borrowed_error(e: Error) -> bool {
    e matches Error::RuntimeError(m) && m@ == "app data is currently borrowed"@
}

/// The application-data store of one VM.
#[derive(Debug)]
pub struct AppDataStore {
    pub(crate) entries: KeyedVec<AppSlot>,
    pub(crate) borrows: u64,
}

impl AppDataStore {
    /// The entries have distinct keys.
    pub closed spec fn wf(&self) -> bool {
        self.entries.wf()
    }

    /// The stored slots by type key.
    pub closed spec fn spec_slots(&self) -> Map<u64, AppSlot> {
        self.entries.spec_map()
    }

    /// The number of live borrows of any value.
    pub closed spec fn spec_borrows(&self) -> u64 {
        self.borrows
    }

    /// An empty store with no live borrow.
    pub fn new() -> (r: AppDataStore)
        ensures
            r.wf(),
            r.spec_slots() == Map::<u64, AppSlot>::empty(),
            r.spec_borrows() == 0,
    {
        AppDataStore { entries: KeyedVec::new(), borrows: 0 }
    }

    /// Stores `value` under `key` unless a borrow is live; gives back the
    /// value it replaces.
    pub fn try_set(&mut self, key: u64, value: Value) -> (r: Result<Option<Value>, Error>)
        requires
            old(self).wf(),
        ensures
            final(self).wf(),
            final(self).spec_borrows() == old(self).spec_borrows(),
            old(self).spec_borrows() != 0 ==> (r matches Err(e) && spec_conflict_error(e)
                && final(self).spec_slots() == old(self).spec_slots()),
            old(self).spec_borrows() == 0 ==> (r matches Ok(prev)
                && final(self).spec_slots() == old(self).spec_slots().insert(
                    key,
                    AppSlot { value: value, shared: 0, exclusive: false },
                )
                && (prev matches Some(p) ==> old(self).spec_slots().contains_key(key) && p == old(self).spec_slots()[key].value)
                && (prev is None ==> !old(self).spec_slots().contains_key(key))),
    {
        if self.borrows != 0 {
            return Err(Error::runtime("cannot mutably borrow app data container"));
        }
        let old = self.entries.insert(key, AppSlot { value, shared: 0, exclusive: false });
        match old {
            Some(slot) => Ok(Some(slot.value)),
            None => Ok(None),
        }
    }

    /// Stores `value` under `key`; no borrow may be live.
    pub fn set(&mut self, key: u64, value: Value)
        requires
            old(self).wf(),
            old(self).spec_borrows() == 0,
        ensures
            final(self).wf(),
            final(self).spec_borrows() == 0,
            final(self).spec_slots() == old(self).spec_slots().insert(
                key,
                AppSlot { value: value, shared: 0, exclusive: false },
            ),
    {
        let _ = self.try_set(key, value);
    }

    /// Borrows the value under `key` shared, unless it is exclusively borrowed.
    pub fn try_borrow(&mut self, key: u64) -> (r: Result<Option<AppDataRef>, Error>)
        requires
            old(self).wf(),
            old(self).spec_borrows() < u64::MAX,
            old(self).spec_slots().contains_key(key) ==> old(self).spec_slots()[key].shared < u64::MAX,
        ensures
            final(self).wf(),
            !old(self).spec_slots().contains_key(key) ==> (r matches Ok(g) && g is None && *final(self) == *old(self)),
            old(self).spec_slots().contains_key(key) && old(self).spec_slots()[key].exclusive ==> (r matches Err(e)
                && spec_mut_borrowed_error(e) && *final(self) == *old(self)),
            old(self).spec_slots().contains_key(key) && !old(self).spec_slots()[key].exclusive ==> (r matches Ok(g)
                && g matches Some(guard) && guard.spec_key() == key
                && final(self).spec_borrows() == old(self).spec_borrows() + 1
                && final(self).spec_slots() == old(self).spec_slots().insert(
                    key,
                    AppSlot {
                        value: old(self).spec_slots()[key].value,
                        shared: (old(self).spec_slots()[key].shared + 1) as u64,
                        exclusive: false,
                    },
                )),
    {
        match self.entries.get(key) {
            None => { return Ok(None); },
            Some(slot) => {
                if slot.exclusive {
                    return Err(Error::runtime("app data is currently mutably borrowed"));
                }
            },
        }
        match self.entries.remove(key) {
            None => Ok(None),
            Some(slot) => {
                let _ = self.entries.insert(key, AppSlot { value: slot.value, shared: slot.shared + 1, exclusive: false });
                self.borrows = self.borrows + 1;
                proof {
                    assert(self.entries.spec_map() =~= old(self).entries.spec_map().insert(
                        key,
                        AppSlot {
                            value: old(self).spec_slots()[key].value,
                            shared: (old(self).spec_slots()[key].shared + 1) as u64,
                            exclusive: false,
                        },
                    ));
                }
                Ok(Some(AppDataRef { key }))
            },
        }
    }

    /// Borrows the value under `key` exclusively, unless it is borrowed.
    pub fn try_borrow_mut(&mut self, key: u64) -> (r: Result<Option<AppDataRefMut>, Error>)
        requires
            old(self).wf(),
            old(self).spec_borrows() < u64::MAX,
        ensures
            final(self).wf(),
            !old(self).spec_slots().contains_key(key) ==> (r matches Ok(g) && g is None && *final(self) == *old(self)),
            old(self).spec_slots().contains_key(key) && (old(self).spec_slots()[key].exclusive
                || old(self).spec_slots()[key].shared > 0) ==> (r matches Err(e) && spec_borrowed_error(e)
                && *final(self) == *old(self)),
            old(self).spec_slots().contains_key(key) && !old(self).spec_slots()[key].exclusive
                && old(self).spec_slots()[key].shared == 0 ==> (r matches Ok(g) && g matches Some(guard)
                && guard.spec_key() == key
                && final(self).spec_borrows() == old(self).spec_borrows() + 1
                && final(self).spec_slots() == old(self).spec_slots().insert(
                    key,
                    AppSlot { value: old(self).spec_slots()[key].value, shared: 0, exclusive: true },
                )),
    {
        match self.entries.get(key) {
            None => { return Ok(None); },
            Some(slot) => {
                if slot.exclusive || slot.shared > 0 {
                    return Err(Error::runtime("app data is currently borrowed"));
                }
            },
        }
        match self.entries.remove(key) {
            None => Ok(None),
            Some(slot) => {
                let _ = self.entries.insert(key, AppSlot { value: slot.value, shared: 0, exclusive: true });
                self.borrows = self.borrows + 1;
                proof {
                    assert(self.entries.spec_map() =~= old(self).entries.spec_map().insert(
                        key,
                        AppSlot { value: old(self).spec_slots()[key].value, shared: 0, exclusive: true },
                    ));
                }
                Ok(Some(AppDataRefMut { key }))
            },
        }
    }

    /// The value that a shared borrow reads.
    pub fn read(&self, guard: &AppDataRef) -> (r: Option<&Value>)
        requires
            self.wf(),
        ensures
            r matches Some(v) ==> self.spec_slots().contains_key(guard.spec_key())
                && *v == self.spec_slots()[guard.spec_key()].value,
            r is None ==> !self.spec_slots().contains_key(guard.spec_key()),
    {
        match self.entries.get(guard.key) {
            Some(slot) => Some(&slot.value),
            None => None,
        }
    }

    /// Writes through an exclusive borrow.
    pub fn write(&mut self, guard: &AppDataRefMut, value: Value)
        requires
            old(self).wf(),
        ensures
            final(self).wf(),
            final(self).spec_borrows() == old(self).spec_borrows(),
            old(self).spec_slots().contains_key(guard.spec_key()) ==> final(self).spec_slots() == old(self).spec_slots().insert(
                guard.spec_key(),
                AppSlot {
                    value: value,
                    shared: old(self).spec_slots()[guard.spec_key()].shared,
                    exclusive: old(self).spec_slots()[guard.spec_key()].exclusive,
                },
            ),
            !old(self).spec_slots().contains_key(guard.spec_key()) ==> final(self).spec_slots() == old(self).spec_slots(),
    {
        let key = guard.key;
        match self.entries.remove(key) {
            None => {
                proof { assert(self.entries.spec_map() =~= old(self).entries.spec_map()); }
            },
            Some(slot) => {
                let _ = self.entries.insert(key, AppSlot { value, shared: slot.shared, exclusive: slot.exclusive });
                proof {
                    assert(self.entries.spec_map() =~= old(self).entries.spec_map().insert(
                        key,
                        AppSlot {
                            value: value,
                            shared: old(self).spec_slots()[key].shared,
                            exclusive: old(self).spec_slots()[key].exclusive,
                        },
                    ));
                }
            },
        }
    }

    /// Ends a shared borrow.
    pub fn release(&mut self, guard: AppDataRef)
        requires
            old(self).wf(),
        ensures
            final(self).wf(),
            final(self).spec_borrows() == if old(self).spec_borrows() > 0 {
                (old(self).spec_borrows() - 1) as u64
            } else {
                0
            },
            old(self).spec_slots().contains_key(guard.spec_key()) ==> final(self).spec_slots() == old(self).spec_slots().insert(
                guard.spec_key(),
                AppSlot {
                    value: old(self).spec_slots()[guard.spec_key()].value,
                    shared: if old(self).spec_slots()[guard.spec_key()].shared > 0 {
                        (old(self).spec_slots()[guard.spec_key()].shared - 1) as u64
                    } else {
                        0
                    },
                    exclusive: old(self).spec_slots()[guard.spec_key()].exclusive,
                },
            ),
            !old(self).spec_slots().contains_key(guard.spec_key()) ==> final(self).spec_slots() == old(self).spec_slots(),
    {
        let key = guard.key;
        if self.borrows > 0 {
            self.borrows = self.borrows - 1;
        }
        match self.entries.remove(key) {
            None => {
                proof { assert(self.entries.spec_map() =~= old(self).entries.spec_map()); }
            },
            Some(slot) => {
                let shared = if slot.shared > 0 { slot.shared - 1 } else { 0 };
                let _ = self.entries.insert(key, AppSlot { value: slot.value, shared, exclusive: slot.exclusive });
                proof {
                    assert(self.entries.spec_map() =~= old(self).entries.spec_map().insert(
                        key,
                        AppSlot {
                            value: old(self).spec_slots()[key].value,
                            shared: shared,
                            exclusive: old(self).spec_slots()[key].exclusive,
                        },
                    ));
                }
            },
        }
    }

    /// Ends an exclusive borrow.
    pub fn release_mut(&mut self, guard: AppDataRefMut)
        requires
            old(self).wf(),
        ensures
            final(self).wf(),
            final(self).spec_borrows() == if old(self).spec_borrows() > 0 {
                (old(self).spec_borrows() - 1) as u64
            } else {
                0
            },
            old(self).spec_slots().contains_key(guard.spec_key()) ==> final(self).spec_slots() == old(self).spec_slots().insert(
                guard.spec_key(),
                AppSlot {
                    value: old(self).spec_slots()[guard.spec_key()].value,
                    shared: old(self).spec_slots()[guard.spec_key()].shared,
                    exclusive: false,
                },
            ),
            !old(self).spec_slots().contains_key(guard.spec_key()) ==> final(self).spec_slots() == old(self).spec_slots(),
    {
        let key = guard.key;
        if self.borrows > 0 {
            self.borrows = self.borrows - 1;
        }
        match self.entries.remove(key) {
            None => {
                proof { assert(self.entries.spec_map() =~= old(self).entries.spec_map()); }
            },
            Some(slot) => {
                let _ = self.entries.insert(key, AppSlot { value: slot.value, shared: slot.shared, exclusive: false });
                proof {
                    assert(self.entries.spec_map() =~= old(self).entries.spec_map().insert(
                        key,
                        AppSlot {
                            value: old(self).spec_slots()[key].value,
                            shared: old(self).spec_slots()[key].shared,
                            exclusive: false,
                        },
                    ));
                }
            },
        }
    }

    /// Removes and gives back the value under `key`; no borrow may be live.
    pub fn remove(&mut self, key: u64) -> (r: Option<Value>)
        requires
            old(self).wf(),
            old(self).spec_borrows() == 0,
        ensures
            final(self).wf(),
            final(self).spec_borrows() == 0,
            final(self).spec_slots() == old(self).spec_slots().remove(key),
            r matches Some(v) ==> old(self).spec_slots().contains_key(key) && v == old(self).spec_slots()[key].value,
            r is None ==> !old(self).spec_slots().contains_key(key),
    {
        match self.entries.remove(key) {
            Some(slot) => Some(slot.value),
            None => None,
        }
    }
}

/// What a write stores, a later shared borrow reads, as long as no borrow
/// was live when it was written.
pub proof fn law_app_data_set_then_read(before: AppDataStore, after: AppDataStore, key: u64, value: Value)
    requires
        before.spec_borrows() == 0,
        after.spec_slots() == before.spec_slots().insert(key, AppSlot { value: value, shared: 0, exclusive: false }),
    ensures
        after.spec_slots().contains_key(key),
        after.spec_slots()[key].value == value,
        !after.spec_slots()[key].exclusive,
        after.spec_slots()[key].shared == 0,
        forall|k: u64| k != key ==> #[trigger] after.spec_slots().get(k) == before.spec_slots().get(k),
{
}

} // verus!
