//! Userdata: a Rust value owned by the VM behind a borrow cell, the borrow
//! discipline of its handles, and how a userdata's metatable resolves field
//! reads and writes.

use vstd::prelude::*;
use crate::error::Error;
use crate::value::{ObjectId, Value};

verus! {

/// The cell that holds a userdata's value: the value (gone once taken) and
/// its borrow state.
#[derive(Debug)]
pub struct UserCell {
    pub value: Option<Value>,
    pub shared: u64,
    pub exclusive: bool,
}

/// A handle to a userdata: its identity, the type key of its value (none
/// for a userdata made by a scope, which only carries a marker), and its cell.
#[derive(Debug)]
pub struct AnyUserData {
    pub(crate) id: ObjectId,
    pub(crate) type_key: Option<u64>,
    pub(crate) cell: UserCell,
}

/// A live shared borrow of a userdata's value.
#[derive(Debug)]
pub struct UserDataRef {
    pub(crate) id: ObjectId,
}

/// A live exclusive borrow of a userdata's value.
#[derive(Debug)]
pub struct UserDataRefMut {
    pub(crate) id: ObjectId,
}

impl AnyUserData {
    /// A userdata holding `value`, of the type `type_key` (none: made by a scope).
    pub fn new(id: ObjectId, type_key: Option<u64>, value: Value) -> (r: AnyUserData)
        ensures
            r.spec_id() == id,
            r.spec_type_key() == type_key,
            r.spec_cell() == (UserCell { value: Some(value), shared: 0, exclusive: false }),
    {
        AnyUserData { id, type_key, cell: UserCell { value: Some(value), shared: 0, exclusive: false } }
    }

    /// The identity of the userdata.
    pub closed spec fn spec_id(&self) -> ObjectId {
        self.id
    }

    /// The type key of its value.
    pub closed spec fn spec_type_key(&self) -> Option<u64> {
        self.type_key
    }

    /// Its cell.
    pub closed spec fn spec_cell(&self) -> UserCell {
        self.cell
    }

    /// Whether the value is of the type `type_key`.
    pub open spec fn spec_has_type(&self, type_key: u64) -> bool {
        self.spec_type_key() == Some(type_key)
    }

    /// The identity of the userdata.
    pub fn to_pointer(&self) -> (r: ObjectId)
        ensures
            r == self.spec_id(),
    {
        self.id
    }

    /// Whether two handles refer to the same userdata.
    pub fn same_object(&self, other: &AnyUserData) -> (r: bool)
        ensures
            r == (self.spec_id() == other.spec_id()),
    {
        self.id.0 == other.id.0
    }

    /// The type key of the value (none for a userdata made by a scope).
    pub fn type_id(&self) -> (r: Option<u64>)
        ensures
            r == self.spec_type_key(),
    {
        self.type_key
    }

    /// Whether the userdata holds a value of the type `type_key` that was not
    /// taken. The value must not be exclusively borrowed.
    pub fn is(&self, type_key: u64) -> (r: bool)
        requires
            self.spec_has_type(type_key) ==> !self.spec_cell().exclusive,
        ensures
            r == (self.spec_has_type(type_key) && self.spec_cell().value is Some),
    {
        match self.type_key {
            Some(k) => k == type_key && self.cell.value.is_some(),
            None => false,
        }
    }

    /// Borrows the value shared as the type `type_key`.
    pub fn borrow(&mut self, type_key: u64) -> (r: Result<UserDataRef, Error>)
        requires
            old(self).spec_cell().shared < u64::MAX,
        ensures
            final(self).spec_id() == old(self).spec_id(),
            final(self).spec_type_key() == old(self).spec_type_key(),
            !old(self).spec_has_type(type_key) ==> (r matches Err(e) && e is UserDataTypeMismatch
                && final(self).spec_cell() == old(self).spec_cell()),
            old(self).spec_has_type(type_key) && old(self).spec_cell().exclusive ==> (r matches Err(e)
                && e is UserDataBorrowError && final(self).spec_cell() == old(self).spec_cell()),
            old(self).spec_has_type(type_key) && !old(self).spec_cell().exclusive && old(self).spec_cell().value is None ==> (r matches Err(
                e,
            ) && e is UserDataDestructed && final(self).spec_cell() == old(self).spec_cell()),
            old(self).spec_has_type(type_key) && !old(self).spec_cell().exclusive && old(self).spec_cell().value is Some ==> (r matches Ok(
                g,
            ) && g.spec_id() == old(self).spec_id() && final(self).spec_cell() == (UserCell {
                shared: (old(self).spec_cell().shared + 1) as u64,
                ..old(self).spec_cell()
            })),
    {
        match self.type_key {
            Some(k) => {
                if k != type_key {
                    return Err(Error::UserDataTypeMismatch);
                }
            },
            None => {
                return Err(Error::UserDataTypeMismatch);
            },
        }
        if self.cell.exclusive {
            return Err(Error::UserDataBorrowError);
        }
        if self.cell.value.is_none() {
            return Err(Error::UserDataDestructed);
        }
        self.cell.shared = self.cell.shared + 1;
        Ok(UserDataRef { id: self.id })
    }

    /// Borrows the value exclusively as the type `type_key`.
    pub fn borrow_mut(&mut self, type_key: u64) -> (r: Result<UserDataRefMut, Error>)
        ensures
            final(self).spec_id() == old(self).spec_id(),
            final(self).spec_type_key() == old(self).spec_type_key(),
            !old(self).spec_has_type(type_key) ==> (r matches Err(e) && e is UserDataTypeMismatch
                && final(self).spec_cell() == old(self).spec_cell()),
            old(self).spec_has_type(type_key) && (old(self).spec_cell().exclusive || old(self).spec_cell().shared > 0) ==> (r matches Err(
                e,
            ) && e is UserDataBorrowMutError && final(self).spec_cell() == old(self).spec_cell()),
            old(self).spec_has_type(type_key) && !old(self).spec_cell().exclusive && old(self).spec_cell().shared == 0
                && old(self).spec_cell().value is None ==> (r matches Err(e) && e is UserDataDestructed
                && final(self).spec_cell() == old(self).spec_cell()),
            old(self).spec_has_type(type_key) && !old(self).spec_cell().exclusive && old(self).spec_cell().shared == 0
                && old(self).spec_cell().value is Some ==> (r matches Ok(g) && g.spec_id() == old(self).spec_id()
                && final(self).spec_cell() == (UserCell { exclusive: true, ..old(self).spec_cell() })),
    {
        match self.type_key {
            Some(k) => {
                if k != type_key {
                    return Err(Error::UserDataTypeMismatch);
                }
            },
            None => {
                return Err(Error::UserDataTypeMismatch);
            },
        }
        if self.cell.exclusive || self.cell.shared > 0 {
            return Err(Error::UserDataBorrowMutError);
        }
        if self.cell.value.is_none() {
            return Err(Error::UserDataDestructed);
        }
        self.cell.exclusive = true;
        Ok(UserDataRefMut { id: self.id })
    }

    /// Takes the value out as the type `type_key`, leaving the userdata
    /// destructed.
    pub fn take(&mut self, type_key: u64) -> (r: Result<Value, Error>)
        ensures
            final(self).spec_id() == old(self).spec_id(),
            final(self).spec_type_key() == old(self).spec_type_key(),
            !old(self).spec_has_type(type_key) ==> (r matches Err(e) && e is UserDataTypeMismatch
                && final(self).spec_cell() == old(self).spec_cell()),
            old(self).spec_has_type(type_key) && (old(self).spec_cell().exclusive || old(self).spec_cell().shared > 0) ==> (r matches Err(
                e,
            ) && e is UserDataBorrowMutError && final(self).spec_cell() == old(self).spec_cell()),
            old(self).spec_has_type(type_key) && !old(self).spec_cell().exclusive && old(self).spec_cell().shared == 0
                && old(self).spec_cell().value is None ==> (r matches Err(e) && e is UserDataDestructed
                && final(self).spec_cell() == old(self).spec_cell()),
            old(self).spec_has_type(type_key) && !old(self).spec_cell().exclusive && old(self).spec_cell().shared == 0
                && old(self).spec_cell().value is Some ==> (r matches Ok(v) && old(self).spec_cell().value == Some(v)
                && final(self).spec_cell() == (UserCell { value: None, ..old(self).spec_cell() })),
    {
        match self.type_key {
            Some(k) => {
                if k != type_key {
                    return Err(Error::UserDataTypeMismatch);
                }
            },
            None => {
                return Err(Error::UserDataTypeMismatch);
            },
        }
        if self.cell.exclusive || self.cell.shared > 0 {
            return Err(Error::UserDataBorrowMutError);
        }
        let mut taken: Option<Value> = None;
        core::mem::swap(&mut taken, &mut self.cell.value);
        match taken {
            Some(v) => Ok(v),
            None => Err(Error::UserDataDestructed),
        }
    }

    /// Empties the cell when its scope ends: the value goes, and later
    /// access finds the userdata destructed.
    pub fn destruct(&mut self) -> (r: Option<Value>)
        ensures
            final(self).spec_id() == old(self).spec_id(),
            final(self).spec_type_key() == old(self).spec_type_key(),
            r == old(self).spec_cell().value,
            final(self).spec_cell() == (UserCell { value: None, ..old(self).spec_cell() }),
    {
        let mut taken: Option<Value> = None;
        core::mem::swap(&mut taken, &mut self.cell.value);
        taken
    }

    /// The value in the cell, if it was not taken.
    pub(crate) fn cell_value(&self) -> (r: Option<&Value>)
        ensures
            r matches Some(v) ==> self.spec_cell().value == Some(*v),
            r is None ==> self.spec_cell().value is None,
    {
        match &self.cell.value {
            Some(v) => Some(v),
            None => None,
        }
    }

    /// The value that a shared borrow reads.
    pub fn read(&self, guard: &UserDataRef) -> (r: Option<&Value>)
        ensures
            r matches Some(v) ==> self.spec_cell().value == Some(*v),
            r is None ==> self.spec_cell().value is None,
    {
        match &self.cell.value {
            Some(v) => Some(v),
            None => None,
        }
    }

    /// Writes through an exclusive borrow.
    pub fn write(&mut self, guard: &UserDataRefMut, value: Value)
        ensures
            final(self).spec_id() == old(self).spec_id(),
            final(self).spec_type_key() == old(self).spec_type_key(),
            final(self).spec_cell() == (UserCell { value: Some(value), ..old(self).spec_cell() }),
    {
        self.cell.value = Some(value);
    }

    /// Ends a shared borrow.
    pub fn release(&mut self, guard: UserDataRef)
        ensures
            final(self).spec_id() == old(self).spec_id(),
            final(self).spec_type_key() == old(self).spec_type_key(),
            final(self).spec_cell() == (UserCell {
                shared: if old(self).spec_cell().shared > 0 { (old(self).spec_cell().shared - 1) as u64 } else { 0 },
                ..old(self).spec_cell()
            }),
    {
        if self.cell.shared > 0 {
            self.cell.shared = self.cell.shared - 1;
        }
    }

    /// Ends an exclusive borrow.
    pub fn release_mut(&mut self, guard: UserDataRefMut)
        ensures
            final(self).spec_id() == old(self).spec_id(),
            final(self).spec_type_key() == old(self).spec_type_key(),
            final(self).spec_cell() == (UserCell { exclusive: false, ..old(self).spec_cell() }),
    {
        self.cell.exclusive = false;
    }
}

impl UserDataRef {
    /// The userdata borrowed.
    pub closed spec fn spec_id(&self) -> ObjectId {
        self.id
    }
}

impl UserDataRefMut {
    /// The userdata borrowed.
    pub closed spec fn spec_id(&self) -> ObjectId {
        self.id
    }
}

/// How a read of a field of a userdata resolves.
#[derive(Debug)]
pub enum IndexResolution {
    /// Call this field getter with the userdata.
    Getter(ObjectId),
    /// This method (a value of the method table).
    Method(Value),
    /// Call the user's `__index` with the userdata and the key.
    UserIndex(ObjectId),
    /// No such field: `nil`.
    Nil,
}

/// The resolution of a field read: a field getter first (when the type has
/// fields), then the method table, then the user's `__index`, else `nil`.
pub open spec fn spec_resolve_index(
    has_fields: bool,
    getter: Option<ObjectId>,
    method: Value,
    user_index: Option<ObjectId>,
) -> IndexResolution {
    if has_fields && getter is Some {
        IndexResolution::Getter(getter->Some_0)
    } else if !(method is Nil) {
        IndexResolution::Method(method)
    } else if user_index is Some {
        IndexResolution::UserIndex(user_index->Some_0)
    } else {
        IndexResolution::Nil
    }
}

/// Resolves a field read from what the tables hold under the key: the
/// getter (a function, if any), the method-table value, the user's `__index`.
pub fn resolve_index(has_fields: bool, getter: Option<ObjectId>, method: Value, user_index: Option<ObjectId>) -> (r:
    IndexResolution)
    ensures
        r == spec_resolve_index(has_fields, getter, method, user_index),
{
    if has_fields {
        if let Some(g) = getter {
            return IndexResolution::Getter(g);
        }
    }
    if !method.is_nil() {
        return IndexResolution::Method(method);
    }
    match user_index {
        Some(f) => IndexResolution::UserIndex(f),
        None => IndexResolution::Nil,
    }
}

/// Whether `__index` can be the method table itself: no field and no user
/// `__index`.
pub fn index_is_method_table(has_fields: bool, has_user_index: bool) -> (r: bool)
    ensures
        r == (!has_fields && !has_user_index),
{
    !has_fields && !has_user_index
}

/// How a write of a field of a userdata resolves.
#[derive(Debug)]
pub enum NewIndexResolution {
    /// Call this field setter with the userdata and the value.
    Setter(ObjectId),
    /// Call the user's `__newindex` with the userdata, key and value.
    UserNewIndex(ObjectId),
}

/// The error of writing an unknown field.
pub open spec fn spec_unknown_field_error(e: Error, name: Seq<char>) -> bool {
    e matches Error::RuntimeError(m) && m@ == "attempt to set unknown field '"@ + name + "' on userdata"@
}

/// Where a field write goes: the setter, else the user's `__newindex`;
/// none when there is neither.
pub open spec fn spec_resolve_newindex(setter: Option<ObjectId>, user_newindex: Option<ObjectId>) -> Option<NewIndexResolution> {
    match setter {
        Some(s) => Some(NewIndexResolution::Setter(s)),
        None => match user_newindex {
            Some(f) => Some(NewIndexResolution::UserNewIndex(f)),
            None => None,
        },
    }
}

/// Resolves a field write: the setter first, then the user's `__newindex`;
/// otherwise the write is an error naming the key (`key_text` is its text).
pub fn resolve_newindex(setter: Option<ObjectId>, user_newindex: Option<ObjectId>, key_text: &str) -> (r: Result<
    NewIndexResolution,
    Error,
>)
    ensures
        setter matches Some(s) ==> (r matches Ok(NewIndexResolution::Setter(x)) && x == s),
        setter is None && user_newindex is Some ==> (r matches Ok(NewIndexResolution::UserNewIndex(x)) && Some(x) == user_newindex),
        setter is None && user_newindex is None ==> (r matches Err(e) && spec_unknown_field_error(e, key_text@)),
        r matches Ok(x) ==> Some(x) == spec_resolve_newindex(setter, user_newindex),
        r is Err <==> spec_resolve_newindex(setter, user_newindex) is None,
{
    if let Some(s) = setter {
        return Ok(NewIndexResolution::Setter(s));
    }
    match user_newindex {
        Some(f) => Ok(NewIndexResolution::UserNewIndex(f)),
        None => Err(Error::RuntimeError(crate::error::concat3("attempt to set unknown field '", key_text, "' on userdata"))),
    }
}

/// A registered method, meta-method, or field accessor.
#[derive(Debug)]
pub struct Registration {
    pub name: String,
    /// A meta-method (for methods) or a getter (for fields).
    pub flag: bool,
    pub func: ObjectId,
}

/// The registrations with the flag set, and those without, each in order.
pub open spec fn spec_partition(s: Seq<Registration>) -> (Seq<Registration>, Seq<Registration>) {
    (s.filter(|x: Registration| x.flag), s.filter(|x: Registration| !x.flag))
}

/// Splits registrations by their flag (meta-methods from methods, getters
/// from setters), keeping the order of each part.
pub fn partition(regs: Vec<Registration>) -> (r: (Vec<Registration>, Vec<Registration>))
    ensures
        (r.0@, r.1@) == spec_partition(regs@),
{
    let ghost all = regs@;
    let mut rest = regs;
    let mut yes: Vec<Registration> = Vec::new();
    let mut no: Vec<Registration> = Vec::new();
    let mut i: usize = 0;
    let total: usize = rest.len();
    proof {
        reveal(Seq::filter);
        assert(all.subrange(0, 0).filter(|x: Registration| x.flag) =~= Seq::<Registration>::empty());
        assert(all.subrange(0, 0).filter(|x: Registration| !x.flag) =~= Seq::<Registration>::empty());
    }
    while rest.len() > 0
        invariant
            i <= all.len(),
            all.len() == total,
            rest@ == all.subrange(i as int, all.len() as int),
            yes@ == all.subrange(0, i as int).filter(|x: Registration| x.flag),
            no@ == all.subrange(0, i as int).filter(|x: Registration| !x.flag),
        decreases rest.len(),
    {
        let x = rest.remove(0);
        assert(all[i as int] == x);
        let ghost prefix = all.subrange(0, i as int);
        assert(all.subrange(0, i + 1) =~= prefix.push(x));
        proof {
            reveal(Seq::filter);
            assert(prefix.push(x).drop_last() =~= prefix);
        }
        if x.flag {
            yes.push(x);
        } else {
            no.push(x);
        }
        i += 1;
        assert(rest@ =~= all.subrange(i as int, all.len() as int));
    }
    assert(all.subrange(0, all.len() as int) =~= all);
    (yes, no)
}

/// Keeps the first error of a registration sequence.
pub fn record_first_error(slot: &mut Option<Error>, err: Error)
    ensures
        *old(slot) is Some ==> *final(slot) == *old(slot),
        *old(slot) is None ==> *final(slot) == Some(err),
{
    if slot.is_none() {
        *slot = Some(err);
    }
}

/// The recorded error, if any, as the registration's result; the slot is
/// emptied.
pub fn check_recorded(slot: &mut Option<Error>) -> (r: Result<(), Error>)
    ensures
        *final(slot) is None,
        *old(slot) matches Some(e) ==> r == Err::<(), Error>(e),
        *old(slot) is None ==> r is Ok,
{
    let mut taken: Option<Error> = None;
    core::mem::swap(&mut taken, slot);
    match taken {
        Some(e) => Err(e),
        None => Ok(()),
    }
}

/// A field read finds a field getter first (when the type has fields);
/// failing that, a value in the method table is the answer, whatever user
/// `__index` is set: the user's `__index` is called only for a key that
/// neither a getter nor the method table answers, and with none set the
/// read gives `nil`.
pub proof fn law_methods_before_user_index(
    has_fields: bool,
    getter: Option<ObjectId>,
    method: Value,
    user_index: Option<ObjectId>,
    other_index: Option<ObjectId>,
)
    ensures
        has_fields && getter is Some ==> spec_resolve_index(has_fields, getter, method, user_index)
            == IndexResolution::Getter(getter->Some_0),
        !(has_fields && getter is Some) && !(method is Nil) ==> spec_resolve_index(has_fields, getter, method, user_index)
            == IndexResolution::Method(method),
        !(has_fields && getter is Some) && !(method is Nil) ==> spec_resolve_index(has_fields, getter, method, user_index)
            == spec_resolve_index(has_fields, getter, method, other_index),
        !(has_fields && getter is Some) && method is Nil && user_index is Some ==> spec_resolve_index(
            has_fields,
            getter,
            method,
            user_index,
        ) == IndexResolution::UserIndex(user_index->Some_0),
        !(has_fields && getter is Some) && method is Nil && user_index is None ==> spec_resolve_index(
            has_fields,
            getter,
            method,
            user_index,
        ) == IndexResolution::Nil,
{
}

/// A field write goes to the field's setter whatever user `__newindex` is
/// set; the user's `__newindex` takes only a write that no setter takes,
/// and with neither the write is refused.
pub proof fn law_setters_before_user_newindex(setter: Option<ObjectId>, user_newindex: Option<ObjectId>, other: Option<ObjectId>)
    ensures
        setter is Some ==> spec_resolve_newindex(setter, user_newindex) == Some(
            NewIndexResolution::Setter(setter->Some_0),
        ),
        setter is Some ==> spec_resolve_newindex(setter, user_newindex) == spec_resolve_newindex(setter, other),
        setter is None && user_newindex is Some ==> spec_resolve_newindex(setter, user_newindex) == Some(
            NewIndexResolution::UserNewIndex(user_newindex->Some_0),
        ),
        setter is None && user_newindex is None ==> spec_resolve_newindex(setter, user_newindex) is None,
{
}

} // verus!
