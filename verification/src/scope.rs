//! Scopes: callbacks and userdata that live only until the scope ends, and
//! the destructors that end them, run last-registered first.

use vstd::prelude::*;
use crate::error::Error;
use crate::function::Function;
use crate::state::Lua;
use crate::userdata::AnyUserData;
use crate::value::{ObjectId, Value};

verus! {

/// Something a scope ends when it ends.
#[derive(Debug, Clone, Copy, PartialEq, Eq, Structural)]
pub enum Destructor {
    /// Empty the slot of this callback function.
    Callback(ObjectId),
    /// Take the value out of this userdata.
    UserData(ObjectId),
    /// Run this user destructor.
    Custom(u64),
}

/// A callback made by a scope, as the VM holds it: the host closure (gone
/// once the scope ended), whether it is mutable (refusing re-entry), and
/// whether such a mutable callback is running.
#[derive(Debug, Clone, Copy, PartialEq, Eq, Structural)]
pub struct CallbackState {
    pub callback: Option<u64>,
    pub mutable: bool,
    pub busy: bool,
}

/// A scope and its destructors, in registration order.
#[derive(Debug)]
pub struct Scope {
    pub(crate) destructors: Vec<Destructor>,
}

impl Scope {
    /// A scope with nothing registered.
    pub fn new() -> (r: Scope)
        ensures
            r.spec_destructors() == Seq::<Destructor>::empty(),
    {
        Scope { destructors: Vec::new() }
    }

    /// The destructors, in registration order.
    pub closed spec fn spec_destructors(&self) -> Seq<Destructor> {
        self.destructors@
    }

    /// A callback function calling the host closure `callback`, with a
    /// fresh identity; the scope's end takes the closure away.
    pub fn create_function(&mut self, lua: &mut Lua, callback: u64) -> (r: Result<Function, Error>)
        requires
            old(lua).wf(),
            old(lua).spec_next_object() < u64::MAX,
        ensures
            r matches Ok(f) && f.id.0 == old(lua).spec_next_object(),
            spec_registered_callback(*old(lua), *final(lua), callback, false),
            final(self).spec_destructors() == old(self).spec_destructors().push(
                Destructor::Callback(ObjectId(old(lua).spec_next_object())),
            ),
    {
        let id = lua.add_scoped_callback(callback, false);
        self.destructors.push(Destructor::Callback(id));
        Ok(Function { id })
    }

    /// A mutable callback function calling the host closure `callback`
    /// (refusing re-entry), with a fresh identity; the scope's end takes the
    /// closure away.
    pub fn create_function_mut(&mut self, lua: &mut Lua, callback: u64) -> (r: Result<Function, Error>)
        requires
            old(lua).wf(),
            old(lua).spec_next_object() < u64::MAX,
        ensures
            r matches Ok(f) && f.id.0 == old(lua).spec_next_object(),
            spec_registered_callback(*old(lua), *final(lua), callback, true),
            final(self).spec_destructors() == old(self).spec_destructors().push(
                Destructor::Callback(ObjectId(old(lua).spec_next_object())),
            ),
    {
        let id = lua.add_scoped_callback(callback, true);
        self.destructors.push(Destructor::Callback(id));
        Ok(Function { id })
    }

    /// A userdata holding `data`, with a fresh identity and no type key (its
    /// value is never read back by type); the scope's end takes the value
    /// away.
    pub fn create_userdata(&mut self, lua: &mut Lua, data: Value) -> (r: Result<AnyUserData, Error>)
        requires
            old(lua).wf(),
            old(lua).spec_next_object() < u64::MAX,
        ensures
            r matches Ok(u) && u.spec_id().0 == old(lua).spec_next_object() && u.spec_type_key() is None,
            r matches Ok(u) ==> (u.spec_cell().value matches Some(v) && crate::value::spec_same_value(v, data)),
            r matches Ok(u) ==> u.spec_cell().shared == 0 && !u.spec_cell().exclusive,
            final(lua).wf(),
            final(lua).spec_next_object() == old(lua).spec_next_object() + 1,
            final(lua).spec_same_stores(&*old(lua)),
            final(lua).spec_buffers() == old(lua).spec_buffers(),
            final(lua).spec_scoped_callbacks() == old(lua).spec_scoped_callbacks(),
            final(lua).spec_scoped_userdata() == old(lua).spec_scoped_userdata().insert(
                old(lua).spec_next_object(),
                Some(data),
            ),
            final(self).spec_destructors() == old(self).spec_destructors().push(
                Destructor::UserData(ObjectId(old(lua).spec_next_object())),
            ),
    {
        let handle = data.clone();
        let id = lua.add_scoped_userdata(data);
        self.destructors.push(Destructor::UserData(id));
        Ok(AnyUserData::new(id, None, handle))
    }

    /// Registers a user destructor.
    pub fn add_destructor(&mut self, destructor: u64)
        ensures
            final(self).spec_destructors() == old(self).spec_destructors().push(Destructor::Custom(destructor)),
    {
        self.destructors.push(Destructor::Custom(destructor));
    }

    /// Ends the scope: the destructors to run, last registered first.
    pub fn end(self) -> (r: Vec<Destructor>)
        ensures
            r@ == self.spec_destructors().reverse(),
    {
        let mut list = self.destructors;
        let ghost all = list@;
        let mut out: Vec<Destructor> = Vec::new();
        while list.len() > 0
            invariant
                all == list@ + out@.reverse(),
            decreases list.len(),
        {
            let ghost before = list@;
            let d = match list.pop() {
                Some(d) => d,
                None => Destructor::Custom(0),
            };
            out.push(d);
            assert(out@.reverse() =~= seq![d] + out@.drop_last().reverse());
            assert(all =~= list@ + out@.reverse());
        }
        assert(out@.reverse().reverse() =~= out@);
        assert(all.reverse() =~= out@);
        out
    }
}

/// `after` is `before` with a new callback (calling `callback`, mutable or
/// not) under the identity `before` handed out next.
pub open spec fn spec_registered_callback(before: Lua, after: Lua, callback: u64, mutable: bool) -> bool {
    &&& after.wf()
    &&& after.spec_next_object() == before.spec_next_object() + 1
    &&& after.spec_same_stores(&before)
    &&& after.spec_buffers() == before.spec_buffers()
    &&& after.spec_scoped_callbacks() == before.spec_scoped_callbacks().insert(
        before.spec_next_object(),
        CallbackState { callback: Some(callback), mutable, busy: false },
    )
    &&& after.spec_scoped_userdata() == before.spec_scoped_userdata()
}

/// `after` is the VM `before` once the destructors `ds` ran: each callback
/// they name lost its closure, each userdata its value; nothing else
/// changed.
pub open spec fn spec_scope_ended(before: Lua, after: Lua, ds: Seq<Destructor>) -> bool {
    &&& after.wf()
    &&& after.spec_same_stores(&before)
    &&& after.spec_next_object() == before.spec_next_object()
    &&& after.spec_buffers() == before.spec_buffers()
    &&& after.spec_scoped_callbacks().dom() == before.spec_scoped_callbacks().dom()
    &&& forall|id: u64| #[trigger] after.spec_scoped_callbacks().contains_key(id) ==> after.spec_scoped_callbacks()[id] == (
    if ds.contains(Destructor::Callback(ObjectId(id))) {
        CallbackState { callback: None, ..before.spec_scoped_callbacks()[id] }
    } else {
        before.spec_scoped_callbacks()[id]
    })
    &&& after.spec_scoped_userdata().dom() == before.spec_scoped_userdata().dom()
    &&& forall|id: u64| #[trigger] after.spec_scoped_userdata().contains_key(id) ==> after.spec_scoped_userdata()[id] == (
    if ds.contains(Destructor::UserData(ObjectId(id))) {
        None
    } else {
        before.spec_scoped_userdata()[id]
    })
}

/// The host destructors of a list of destructors, in its order.
pub open spec fn spec_host_destructors(ds: Seq<Destructor>) -> Seq<u64>
    decreases ds.len(),
{
    if ds.len() == 0 {
        Seq::empty()
    } else {
        spec_host_destructors(ds.drop_last()) + match ds.last() {
            Destructor::Custom(x) => seq![x],
            _ => Seq::empty(),
        }
    }
}

/// A destructor is among a list exactly when it is among the list reversed.
pub proof fn lemma_reverse_contains(ds: Seq<Destructor>, d: Destructor)
    ensures
        ds.reverse().contains(d) == ds.contains(d),
{
    if ds.contains(d) {
        let i = choose|i: int| 0 <= i < ds.len() && ds[i] == d;
        assert(ds.reverse()[ds.len() - 1 - i] == d);
    }
    if ds.reverse().contains(d) {
        let i = choose|i: int| 0 <= i < ds.reverse().len() && ds.reverse()[i] == d;
        assert(ds[ds.len() - 1 - i] == d);
    }
}

/// Once a scope ended, each callback it made has lost its closure (a call
/// is refused as destructed) and keeps whether it is mutable.
pub proof fn law_scope_end_destructs_callbacks(before: Lua, after: Lua, ds: Seq<Destructor>, id: u64)
    requires
        spec_scope_ended(before, after, ds),
        ds.contains(Destructor::Callback(ObjectId(id))),
        before.spec_scoped_callbacks().contains_key(id),
    ensures
        after.spec_scoped_callbacks().contains_key(id),
        after.spec_scoped_callbacks()[id].callback is None,
        after.spec_scoped_callbacks()[id].mutable == before.spec_scoped_callbacks()[id].mutable,
{
    assert(after.spec_scoped_callbacks().contains_key(id));
}

/// Once a scope ended, each userdata it made has lost its value (an
/// access is refused as destructed).
pub proof fn law_scope_end_destructs_userdata(before: Lua, after: Lua, ds: Seq<Destructor>, id: u64)
    requires
        spec_scope_ended(before, after, ds),
        ds.contains(Destructor::UserData(ObjectId(id))),
        before.spec_scoped_userdata().contains_key(id),
    ensures
        after.spec_scoped_userdata().contains_key(id),
        after.spec_scoped_userdata()[id] is None,
{
    assert(after.spec_scoped_userdata().contains_key(id));
}

/// The end of a scope touches only what its destructors name: a callback
/// or userdata made outside it is as it was.
pub proof fn law_scope_end_keeps_others(before: Lua, after: Lua, ds: Seq<Destructor>, id: u64)
    requires
        spec_scope_ended(before, after, ds),
    ensures
        before.spec_scoped_callbacks().contains_key(id) && !ds.contains(Destructor::Callback(ObjectId(id)))
            ==> after.spec_scoped_callbacks()[id] == before.spec_scoped_callbacks()[id],
        before.spec_scoped_userdata().contains_key(id) && !ds.contains(Destructor::UserData(ObjectId(id)))
            ==> after.spec_scoped_userdata()[id] == before.spec_scoped_userdata()[id],
{
    if before.spec_scoped_callbacks().contains_key(id) {
        assert(after.spec_scoped_callbacks().contains_key(id));
    }
    if before.spec_scoped_userdata().contains_key(id) {
        assert(after.spec_scoped_userdata().contains_key(id));
    }
}

/// The last destructor registered runs first, and the first runs last.
pub proof fn law_scope_lifo(registered: Seq<Destructor>)
    requires
        registered.len() > 0,
    ensures
        registered.reverse()[0] == registered.last(),
        registered.reverse().last() == registered[0],
{
}

} // verus!
