//! The state of one VM as plain data: its identity, its registry, its side
//! stores, its collector tunables, its memory control and its host type
//! definitions; and the operations of the `Lua` handle over them.

use vstd::prelude::*;
use vstd::string::StringSliceAdditionalSpecFns;
use crate::app_data::{AppDataRef, AppDataRefMut, AppDataStore, AppSlot};
use crate::buffer::{Buffer, ByteArray, MAX_BUFFER_SIZE, spec_too_big_error, spec_write};
use crate::error::{Error, TypeDiagnostic};
use crate::gc::{GcMode, GcTunables, spec_applied, spec_current, spec_inc_params};
use crate::keyed::KeyedVec;
use crate::memory::MemoryState;
use crate::multi::MultiValue;
use crate::options::{LuaOptions, StdLib};
use crate::registry::{Registry, RegistryKey};
use crate::function::Function;
use crate::userdata::AnyUserData;
use crate::scope::{CallbackState, Destructor, Scope, spec_scope_ended, spec_host_destructors, lemma_reverse_contains};
use crate::string::{LuaString, create_string};
use crate::table::{Key, Table, key_of, spec_after_set};
use crate::value::{ObjectId, Value, spec_same_value};

verus! {

/// A handle to one VM.
#[derive(Debug)]
pub struct Lua {
    pub(crate) id: u64,
    pub(crate) next_object: u64,
    pub(crate) registry: Registry,
    pub(crate) named: Table,
    pub(crate) modules: Table,
    pub(crate) app_data: AppDataStore,
    pub(crate) type_metatables: KeyedVec<ObjectId>,
    pub(crate) gc: GcTunables,
    pub(crate) memory: MemoryState,
    pub(crate) libs_opened: bool,
    pub(crate) sandboxed: bool,
    pub(crate) catch_rust_panics: bool,
    pub(crate) definitions: Vec<u8>,
    pub(crate) buffers: KeyedVec<ByteArray>,
    pub(crate) scoped_callbacks: KeyedVec<CallbackState>,
    pub(crate) scoped_userdata: KeyedVec<Option<Value>>,
}

/// The named registry entry that keeps the globals a sandbox replaced.
pub const SANDBOX_SAVED_GLOBALS_NAME: &'static str = "__ulua_sandbox_saved_globals";

/// The key of [`SANDBOX_SAVED_GLOBALS_NAME`] among the named registry values.
pub open spec fn spec_sandbox_key() -> Key {
    Key::String(SANDBOX_SAVED_GLOBALS_NAME.spec_bytes())
}

/// What the VM does for a change of sandbox mode.
#[derive(Debug)]
pub enum SandboxAction {
    /// Make the libraries readonly and give the main thread a proxy
    /// globals table.
    Sandbox,
    /// Put back this globals table, writable again, with its libraries.
    Restore(ObjectId),
    /// Nothing to undo.
    Nothing,
}

/// The error for a registry name holding a NUL byte.
pub open spec fn spec_nul_name_error(e: Error) -> bool {
    e matches Error::RuntimeError(m) && m@ == "name contains a NUL byte"@
}

/// The error of `enable_jit` in a build without native code generation.
pub open spec fn spec_jit_error(e: Error) -> bool {
    e matches Error::RuntimeError(m) && m@ == "Luau JIT support is not enabled in this build (requires feature 'jit')"@
}

/// Whether the bytes hold a NUL byte.
pub open spec fn spec_has_nul(s: Seq<u8>) -> bool {
    exists|i: int| 0 <= i < s.len() && s[i] == 0u8
}

/// Whether `s` holds a NUL byte.
fn has_nul(s: &[u8]) -> (r: bool)
    ensures
        r == spec_has_nul(s@),
{
    let mut i: usize = 0;
    while i < s.len()
        invariant
            i <= s.len(),
            forall|j: int| 0 <= j < i ==> s@[j] != 0u8,
        decreases s.len() - i,
    {
        if s[i] == 0u8 {
            return true;
        }
        i += 1;
    }
    false
}

/// The map that writing the pairs one after the other leaves.
pub open spec fn spec_fill(pairs: Seq<(Value, Value)>) -> Map<Key, Value>
    decreases pairs.len(),
{
    if pairs.len() == 0 {
        Map::empty()
    } else {
        spec_after_set(spec_fill(pairs.drop_last()), key_of(pairs.last().0)->Some_0, pairs.last().1)
    }
}

/// The map that writing `values` under the keys `1, 2, ...` leaves.
pub open spec fn spec_fill_sequence(values: Seq<Value>) -> Map<Key, Value>
    decreases values.len(),
{
    if values.len() == 0 {
        Map::empty()
    } else {
        spec_after_set(
            spec_fill_sequence(values.drop_last()),
            Key::Integer(values.len() as i64),
            values.last(),
        )
    }
}

/// Writing values none of which is `nil` under `1, 2, ...` leaves exactly
/// the keys `1..=n`.
pub proof fn lemma_fill_sequence_dom(values: Seq<Value>)
    requires
        values.len() < i64::MAX,
        forall|i: int| 0 <= i < values.len() ==> !(#[trigger] values[i] is Nil),
    ensures
        forall|k: i64| #[trigger] spec_fill_sequence(values).contains_key(Key::Integer(k)) <==> 1 <= k <= values.len(),
    decreases values.len(),
{
    if values.len() > 0 {
        let front = values.drop_last();
        assert forall|i: int| 0 <= i < front.len() implies !(#[trigger] front[i] is Nil) by {
            assert(front[i] == values[i]);
        }
        lemma_fill_sequence_dom(front);
        assert(!(values.last() is Nil));
        let n = values.len() as i64;
        assert(spec_fill_sequence(values) == spec_fill_sequence(front).insert(Key::Integer(n), values.last()));
        assert forall|k: i64| #[trigger] spec_fill_sequence(values).contains_key(Key::Integer(k)) <==> 1 <= k <= values.len() by {
            if k != n {
                assert(Key::Integer(k) != Key::Integer(n));
            }
        }
    }
}

/// The accumulated definitions after appending `defs`: separated from what
/// was there by a newline.
pub open spec fn spec_appended(acc: Seq<u8>, defs: Seq<u8>) -> Seq<u8> {
    if acc.len() == 0 { defs } else { acc.push(10u8) + defs }
}

impl Lua {
    /// The well-formedness of the state's parts.
    pub closed spec fn wf(&self) -> bool {
        &&& self.named.wf()
        &&& !self.named.spec_readonly()
        &&& self.modules.wf()
        &&& !self.modules.spec_readonly()
        &&& self.app_data.wf()
        &&& self.type_metatables.wf()
        &&& self.memory.wf()
        &&& self.buffers.wf()
        &&& self.scoped_callbacks.wf()
        &&& self.scoped_userdata.wf()
    }

    /// The callbacks made by scopes, by function identity.
    pub closed spec fn spec_scoped_callbacks(&self) -> Map<u64, CallbackState> {
        self.scoped_callbacks.spec_map()
    }

    /// The values of the userdata made by scopes, by identity: none once
    /// their scope ended.
    pub closed spec fn spec_scoped_userdata(&self) -> Map<u64, Option<Value>> {
        self.scoped_userdata.spec_map()
    }

    /// The bytes of the VM's buffers, by identity.
    pub closed spec fn spec_buffers(&self) -> Map<u64, Seq<u8>> {
        self.buffers.spec_map().map_values(|a: ByteArray| a@)
    }

    /// `self` keeps every store of `other` but the buffers and the object
    /// counter: identity, registry, named values, modules, application data,
    /// type metatables, collector, memory control, options and definitions.
    pub open spec fn spec_same_stores(&self, other: &Lua) -> bool {
        &&& self.spec_id() == other.spec_id()
        &&& self.spec_registry() == other.spec_registry()
        &&& self.spec_registry_used() == other.spec_registry_used()
        &&& self.spec_named() == other.spec_named()
        &&& self.spec_named_size() == other.spec_named_size()
        &&& self.spec_modules() == other.spec_modules()
        &&& self.spec_modules_size() == other.spec_modules_size()
        &&& self.spec_app_slots() == other.spec_app_slots()
        &&& self.spec_app_borrows() == other.spec_app_borrows()
        &&& self.spec_type_metatables() == other.spec_type_metatables()
        &&& self.spec_gc() == other.spec_gc()
        &&& self.spec_memory_limit() == other.spec_memory_limit()
        &&& self.spec_memory_categories() == other.spec_memory_categories()
        &&& self.spec_memory_category() == other.spec_memory_category()
        &&& self.spec_libs_opened() == other.spec_libs_opened()
        &&& self.spec_catch_rust_panics() == other.spec_catch_rust_panics()
        &&& self.spec_definitions() == other.spec_definitions()
    }

    /// The identity of the VM.
    pub closed spec fn spec_id(&self) -> u64 {
        self.id
    }

    /// The next object identity to hand out.
    pub closed spec fn spec_next_object(&self) -> u64 {
        self.next_object
    }

    /// The registry slots.
    pub closed spec fn spec_registry(&self) -> Map<u64, Value> {
        self.registry.spec_map()
    }

    /// How many keys hold each registry slot.
    pub closed spec fn spec_registry_holders(&self) -> Map<u64, u64> {
        self.registry.spec_holders()
    }

    /// The number of registry slots ever handed out.
    pub closed spec fn spec_registry_used(&self) -> nat {
        self.registry.spec_used()
    }

    /// The values stored by name in the registry.
    pub closed spec fn spec_named(&self) -> Map<Key, Value> {
        self.named@
    }

    /// The number of named registry entries.
    pub closed spec fn spec_named_size(&self) -> nat {
        self.named.spec_size()
    }

    /// The module cache.
    pub closed spec fn spec_modules(&self) -> Map<Key, Value> {
        self.modules@
    }

    /// The number of module cache entries.
    pub closed spec fn spec_modules_size(&self) -> nat {
        self.modules.spec_size()
    }

    /// The application-data slots.
    pub closed spec fn spec_app_slots(&self) -> Map<u64, AppSlot> {
        self.app_data.spec_slots()
    }

    /// The stored application data, by key.
    pub open spec fn spec_app_values(&self) -> Map<u64, Value> {
        self.spec_app_slots().map_values(|s: AppSlot| s.value)
    }

    /// The number of live application-data borrows.
    pub closed spec fn spec_app_borrows(&self) -> u64 {
        self.app_data.spec_borrows()
    }

    /// The metatables of the value types, by type key.
    pub closed spec fn spec_type_metatables(&self) -> Map<u64, ObjectId> {
        self.type_metatables.spec_map()
    }

    /// The collector tunables.
    pub closed spec fn spec_gc(&self) -> GcTunables {
        self.gc
    }

    /// The memory limit.
    pub closed spec fn spec_memory_limit(&self) -> usize {
        self.memory.spec_limit()
    }

    /// The memory category names, by id.
    pub closed spec fn spec_memory_categories(&self) -> Seq<Seq<u8>> {
        self.memory.spec_categories()
    }

    /// The current memory category.
    pub closed spec fn spec_memory_category(&self) -> u8 {
        self.memory.spec_current()
    }

    /// Whether the standard libraries were opened.
    pub closed spec fn spec_libs_opened(&self) -> bool {
        self.libs_opened
    }

    /// Whether the VM is in sandbox mode.
    pub closed spec fn spec_sandboxed(&self) -> bool {
        self.sandboxed
    }

    /// Whether panics in callbacks are caught.
    pub closed spec fn spec_catch_rust_panics(&self) -> bool {
        self.catch_rust_panics
    }

    /// The accumulated host type definitions.
    pub closed spec fn spec_definitions(&self) -> Seq<u8> {
        self.definitions@
    }

    /// A VM with identity `id`, with its libraries opened or not.
    fn build(id: u64, libs_opened: bool, catch_rust_panics: bool) -> (r: Lua)
        ensures
            r.wf(),
            r.spec_id() == id,
            r.spec_next_object() == 1,
            r.spec_registry() == Map::<u64, Value>::empty(),
            r.spec_registry_used() == 0,
            r.spec_named() == Map::<Key, Value>::empty(),
            r.spec_named_size() == 0,
            r.spec_modules() == Map::<Key, Value>::empty(),
            r.spec_modules_size() == 0,
            r.spec_app_slots() == Map::<u64, AppSlot>::empty(),
            r.spec_app_borrows() == 0,
            r.spec_type_metatables() == Map::<u64, ObjectId>::empty(),
            r.spec_buffers() == Map::<u64, Seq<u8>>::empty(),
            r.spec_scoped_callbacks() == Map::<u64, CallbackState>::empty(),
            r.spec_scoped_userdata() == Map::<u64, Option<Value>>::empty(),
            r.spec_memory_limit() == 0,
            r.spec_memory_categories() == Seq::<Seq<u8>>::empty(),
            r.spec_libs_opened() == libs_opened,
            !r.spec_sandboxed(),
            r.spec_catch_rust_panics() == catch_rust_panics,
            r.spec_definitions() == Seq::<u8>::empty(),
    {
        let r = Lua {
            id,
            next_object: 1,
            registry: Registry::new(),
            named: Table::empty(ObjectId(0)),
            modules: Table::empty(ObjectId(0)),
            app_data: AppDataStore::new(),
            type_metatables: KeyedVec::new(),
            gc: GcTunables { goal: 200, step_multiplier: 200, step_size: 1 },
            memory: MemoryState::new(),
            libs_opened,
            sandboxed: false,
            catch_rust_panics,
            definitions: Vec::new(),
            buffers: KeyedVec::new(),
            scoped_callbacks: KeyedVec::new(),
            scoped_userdata: KeyedVec::new(),
        };
        assert(r.spec_buffers() =~= Map::<u64, Seq<u8>>::empty());
        r
    }

    /// A new VM with identity `id` and the standard libraries opened. A
    /// registry key belongs to the VM whose identity it carries, so the host
    /// gives each live VM an identity of its own.
    pub fn new(id: u64) -> (r: Lua)
        ensures
            r.wf(),
            r.spec_id() == id,
            r.spec_libs_opened(),
            r.spec_catch_rust_panics(),
            r.spec_next_object() == 1,
            r.spec_registry() == Map::<u64, Value>::empty(),
            r.spec_registry_used() == 0,
            r.spec_named() == Map::<Key, Value>::empty(),
            r.spec_named_size() == 0,
            r.spec_modules() == Map::<Key, Value>::empty(),
            r.spec_modules_size() == 0,
            r.spec_app_slots() == Map::<u64, AppSlot>::empty(),
            r.spec_app_borrows() == 0,
            r.spec_type_metatables() == Map::<u64, ObjectId>::empty(),
            r.spec_buffers() == Map::<u64, Seq<u8>>::empty(),
            r.spec_scoped_callbacks() == Map::<u64, CallbackState>::empty(),
            r.spec_scoped_userdata() == Map::<u64, Option<Value>>::empty(),
            r.spec_memory_limit() == 0,
            r.spec_definitions() == Seq::<u8>::empty(),
    {
        Lua::build(id, true, true)
    }

    /// A new VM with no library opened.
    pub fn new_empty(id: u64) -> (r: Lua)
        ensures
            r.wf(),
            r.spec_id() == id,
            !r.spec_libs_opened(),
            r.spec_catch_rust_panics(),
            r.spec_next_object() == 1,
            r.spec_registry() == Map::<u64, Value>::empty(),
            r.spec_registry_used() == 0,
            r.spec_named() == Map::<Key, Value>::empty(),
            r.spec_named_size() == 0,
            r.spec_modules() == Map::<Key, Value>::empty(),
            r.spec_modules_size() == 0,
            r.spec_app_slots() == Map::<u64, AppSlot>::empty(),
            r.spec_app_borrows() == 0,
            r.spec_type_metatables() == Map::<u64, ObjectId>::empty(),
            r.spec_buffers() == Map::<u64, Seq<u8>>::empty(),
            r.spec_scoped_callbacks() == Map::<u64, CallbackState>::empty(),
            r.spec_scoped_userdata() == Map::<u64, Option<Value>>::empty(),
            r.spec_memory_limit() == 0,
            r.spec_definitions() == Seq::<u8>::empty(),
    {
        Lua::build(id, false, true)
    }

    /// A new VM with the standard libraries opened; the VM has no library
    /// that could load native code, so this is [`Lua::new`].
    pub fn unsafe_new(id: u64) -> (r: Lua)
        ensures
            r.wf(),
            r.spec_id() == id,
            r.spec_libs_opened(),
            r.spec_catch_rust_panics(),
            r.spec_next_object() == 1,
            r.spec_registry() == Map::<u64, Value>::empty(),
            r.spec_registry_used() == 0,
            r.spec_named() == Map::<Key, Value>::empty(),
            r.spec_named_size() == 0,
            r.spec_modules() == Map::<Key, Value>::empty(),
            r.spec_modules_size() == 0,
            r.spec_app_slots() == Map::<u64, AppSlot>::empty(),
            r.spec_app_borrows() == 0,
            r.spec_type_metatables() == Map::<u64, ObjectId>::empty(),
            r.spec_buffers() == Map::<u64, Seq<u8>>::empty(),
            r.spec_scoped_callbacks() == Map::<u64, CallbackState>::empty(),
            r.spec_scoped_userdata() == Map::<u64, Option<Value>>::empty(),
            r.spec_memory_limit() == 0,
            r.spec_definitions() == Seq::<u8>::empty(),
    {
        Lua::new(id)
    }

    /// A new VM opening the libraries when `libs` is not empty, with `options`.
    pub fn new_with(id: u64, libs: StdLib, options: LuaOptions) -> (r: Result<Lua, Error>)
        ensures
            r matches Ok(lua) && lua.wf() && lua.spec_id() == id && lua.spec_libs_opened() == (libs.0 != 0)
                && lua.spec_catch_rust_panics() == options.catch_rust_panics && lua.spec_next_object() == 1
                && lua.spec_registry() == Map::<u64, Value>::empty() && lua.spec_registry_used() == 0
                && lua.spec_named() == Map::<Key, Value>::empty() && lua.spec_named_size() == 0
                && lua.spec_modules() == Map::<Key, Value>::empty() && lua.spec_modules_size() == 0
                && lua.spec_app_slots() == Map::<u64, AppSlot>::empty() && lua.spec_app_borrows() == 0
                && lua.spec_type_metatables() == Map::<u64, ObjectId>::empty()
                && lua.spec_buffers() == Map::<u64, Seq<u8>>::empty() && lua.spec_memory_limit() == 0
                && lua.spec_definitions() == Seq::<u8>::empty(),
    {
        Ok(Lua::build(id, !libs.is_none(), options.catch_rust_panics))
    }

    /// Native code generation is not part of this build: always an error.
    pub fn enable_jit(&self, enabled: bool) -> (r: Result<(), Error>)
        ensures
            r matches Err(e) && spec_jit_error(e),
    {
        Err(Error::runtime("Luau JIT support is not enabled in this build (requires feature 'jit')"))
    }

    /// Whether native code generation is enabled: never, in this build.
    pub fn is_jit_enabled(&self) -> (r: bool)
        ensures
            !r,
    {
        false
    }

    /// Feature flags cannot be set: always an error naming the flag.
    pub fn set_fflag(name: &str, enabled: bool) -> (r: Result<(), Error>)
        ensures
            r matches Err(e) && (e matches Error::RuntimeError(m) && m@ == "fflag '"@ + name@ + "' is not supported"@),
    {
        Err(Error::RuntimeError(crate::error::concat3("fflag '", name, "' is not supported")))
    }

    /// Hands out a fresh object identity.
    fn fresh_object(&mut self) -> (r: ObjectId)
        requires
            old(self).spec_next_object() < u64::MAX,
        ensures
            r.0 == old(self).spec_next_object(),
            final(self).spec_next_object() == old(self).spec_next_object() + 1,
            final(self).wf() == old(self).wf(),
            final(self).spec_id() == old(self).spec_id(),
            final(self).spec_registry() == old(self).spec_registry(),
            final(self).spec_named() == old(self).spec_named(),
            final(self).spec_app_slots() == old(self).spec_app_slots(),
            final(self).spec_app_borrows() == old(self).spec_app_borrows(),
            final(self).spec_buffers() == old(self).spec_buffers(),
            final(self).spec_scoped_callbacks() == old(self).spec_scoped_callbacks(),
            final(self).spec_scoped_userdata() == old(self).spec_scoped_userdata(),
            final(self).spec_same_stores(old(self)),
    {
        let id = ObjectId(self.next_object);
        self.next_object = self.next_object + 1;
        id
    }

    /// A new, empty table with a fresh identity.
    pub fn create_table(&mut self) -> (r: Table)
        requires
            old(self).spec_next_object() < u64::MAX,
        ensures
            r.wf(),
            r@ == Map::<Key, Value>::empty(),
            r.spec_size() == 0,
            r.spec_id().0 == old(self).spec_next_object(),
            !r.spec_readonly(),
            r.spec_metatable() is None,
            final(self).spec_next_object() == old(self).spec_next_object() + 1,
            final(self).wf() == old(self).wf(),
            final(self).spec_registry() == old(self).spec_registry(),
            final(self).spec_named() == old(self).spec_named(),
            final(self).spec_same_stores(old(self)),
            final(self).spec_buffers() == old(self).spec_buffers(),
    {
        let id = self.fresh_object();
        Table::empty(id)
    }

    /// A new, empty table; the capacities are a hint only.
    pub fn create_table_with_capacity(&mut self, narr: usize, nrec: usize) -> (r: Table)
        requires
            old(self).spec_next_object() < u64::MAX,
        ensures
            r.wf(),
            r@ == Map::<Key, Value>::empty(),
            r.spec_id().0 == old(self).spec_next_object(),
            !r.spec_readonly(),
            final(self).spec_next_object() == old(self).spec_next_object() + 1,
            final(self).wf() == old(self).wf(),
            final(self).spec_same_stores(old(self)),
            final(self).spec_buffers() == old(self).spec_buffers(),
    {
        self.create_table()
    }

    /// A new, empty table, as a `Result`.
    pub fn create_table_result(&mut self) -> (r: Result<Table, Error>)
        requires
            old(self).spec_next_object() < u64::MAX,
        ensures
            r matches Ok(t) && t.wf() && t@ == Map::<Key, Value>::empty() && t.spec_id().0 == old(self).spec_next_object(),
            final(self).spec_next_object() == old(self).spec_next_object() + 1,
            final(self).wf() == old(self).wf(),
            final(self).spec_same_stores(old(self)),
            final(self).spec_buffers() == old(self).spec_buffers(),
    {
        Ok(self.create_table())
    }

    /// A table holding the pairs, written in order (a later pair with the
    /// same key wins; a `nil` value removes the key).
    pub fn create_table_from(&mut self, pairs: Vec<(Value, Value)>) -> (r: Result<Table, Error>)
        requires
            old(self).spec_next_object() < u64::MAX,
            pairs@.len() + 2 < i64::MAX,
            forall|i: int| 0 <= i < pairs@.len() ==> key_of(#[trigger] pairs@[i].0) is Some,
        ensures
            r matches Ok(t) && t.wf() && t@ == spec_fill(pairs@) && t.spec_id().0 == old(self).spec_next_object()
                && !t.spec_readonly() && t.spec_metatable() is None,
            final(self).spec_next_object() == old(self).spec_next_object() + 1,
            final(self).wf() == old(self).wf(),
            final(self).spec_same_stores(old(self)),
            final(self).spec_buffers() == old(self).spec_buffers(),
    {
        let mut t = self.create_table();
        let ghost all = pairs@;
        let mut rest = pairs;
        let mut i: usize = 0;
        assert(all.subrange(0, 0) =~= Seq::<(Value, Value)>::empty());
        let total: usize = rest.len();
        assert(all.len() == total);
        while rest.len() > 0
            invariant
                t.wf(),
                !t.spec_readonly(),
                t.spec_metatable() is None,
                t.spec_id().0 == old(self).spec_next_object(),
                all.len() + 2 < i64::MAX,
                all.len() <= usize::MAX,
                forall|j: int| 0 <= j < all.len() ==> key_of(#[trigger] all[j].0) is Some,
                i <= all.len(),
                rest@ == all.subrange(i as int, all.len() as int),
                t@ == spec_fill(all.subrange(0, i as int)),
                t.spec_size() <= i,
            decreases rest.len(),
        {
            let (k, v) = rest.remove(0);
            assert(all[i as int] == (k, v));
            let _ = t.raw_set(k, v);
            assert(all.subrange(0, i + 1).drop_last() =~= all.subrange(0, i as int));
            i += 1;
            assert(rest@ =~= all.subrange(i as int, all.len() as int));
        }
        assert(all.subrange(0, all.len() as int) =~= all);
        Ok(t)
    }

    /// A table holding `values` under the keys `1, 2, ...`.
    pub fn create_sequence_from(&mut self, values: Vec<Value>) -> (r: Result<Table, Error>)
        requires
            old(self).spec_next_object() < u64::MAX,
            values@.len() + 2 < i64::MAX,
        ensures
            r matches Ok(t) && t.wf() && t@ == spec_fill_sequence(values@) && t.spec_id().0
                == old(self).spec_next_object() && !t.spec_readonly() && t.spec_metatable() is None,
            r matches Ok(t) ==> ((forall|i: int| 0 <= i < values@.len() ==> !(#[trigger] values@[i] is Nil))
                ==> t.spec_raw_len() == values@.len()),
            final(self).spec_next_object() == old(self).spec_next_object() + 1,
            final(self).wf() == old(self).wf(),
            final(self).spec_same_stores(old(self)),
            final(self).spec_buffers() == old(self).spec_buffers(),
    {
        let mut t = self.create_table();
        let ghost all = values@;
        let mut rest = values;
        let mut i: usize = 0;
        assert(all.subrange(0, 0) =~= Seq::<Value>::empty());
        let total: usize = rest.len();
        assert(all.len() == total);
        while rest.len() > 0
            invariant
                t.wf(),
                !t.spec_readonly(),
                t.spec_metatable() is None,
                t.spec_id().0 == old(self).spec_next_object(),
                all.len() + 2 < i64::MAX,
                all.len() <= usize::MAX,
                i <= all.len(),
                rest@ == all.subrange(i as int, all.len() as int),
                t@ == spec_fill_sequence(all.subrange(0, i as int)),
                t.spec_size() <= i,
            decreases rest.len(),
        {
            let v = rest.remove(0);
            assert(all[i as int] == v);
            let _ = t.raw_set(Value::Integer(i as i64 + 1), v);
            assert(all.subrange(0, i + 1).drop_last() =~= all.subrange(0, i as int));
            i += 1;
            assert(rest@ =~= all.subrange(i as int, all.len() as int));
        }
        assert(all.subrange(0, all.len() as int) =~= all);
        proof {
            if forall|i: int| 0 <= i < all.len() ==> !(#[trigger] all[i] is Nil) {
                lemma_fill_sequence_dom(all);
                crate::table::lemma_raw_len_is_border(&t);
                let n = t.spec_raw_len();
                if n > all.len() {
                    assert(t@.contains_key(Key::Integer((all.len() + 1) as i64)));
                }
                if n < all.len() {
                    assert(t@.contains_key(Key::Integer((n + 1) as i64)));
                }
            }
        }
        Ok(t)
    }

    /// A Lua string holding a copy of `bytes`.
    pub fn create_string(&self, bytes: &[u8]) -> (r: LuaString)
        ensures
            r@ == bytes@,
    {
        create_string(bytes)
    }

    /// A buffer holding a copy of `data`, with a fresh identity; refused
    /// above the size limit with the VM's allocation error.
    pub fn create_buffer(&mut self, data: &[u8]) -> (r: Result<Buffer, Error>)
        requires
            old(self).wf(),
            old(self).spec_next_object() < u64::MAX,
        ensures
            final(self).wf(),
            r is Ok <==> data@.len() <= MAX_BUFFER_SIZE,
            r matches Ok(b) ==> b.spec_id() == old(self).spec_next_object()
                && final(self).spec_buffers() == old(self).spec_buffers().insert(b.spec_id(), data@)
                && final(self).spec_next_object() == old(self).spec_next_object() + 1,
            r matches Err(e) ==> spec_too_big_error(e) && *final(self) == *old(self),
            final(self).spec_same_stores(old(self)),
    {
        match crate::buffer::create_buffer(data) {
            Ok(bytes) => Ok(self.add_buffer(bytes)),
            Err(e) => Err(e),
        }
    }

    /// A buffer of `size` zero bytes, with a fresh identity; refused above
    /// the size limit with the VM's allocation error.
    pub fn create_buffer_with_capacity(&mut self, size: usize) -> (r: Result<Buffer, Error>)
        requires
            old(self).wf(),
            old(self).spec_next_object() < u64::MAX,
        ensures
            final(self).wf(),
            r is Ok <==> size <= MAX_BUFFER_SIZE,
            r matches Ok(b) ==> b.spec_id() == old(self).spec_next_object()
                && final(self).spec_buffers() == old(self).spec_buffers().insert(
                b.spec_id(),
                Seq::new(size as nat, |i: int| 0u8),
            ) && final(self).spec_next_object() == old(self).spec_next_object() + 1,
            r matches Err(e) ==> spec_too_big_error(e) && *final(self) == *old(self),
            final(self).spec_same_stores(old(self)),
    {
        match crate::buffer::create_buffer_with_capacity(size) {
            Ok(bytes) => Ok(self.add_buffer(bytes)),
            Err(e) => Err(e),
        }
    }

    /// Whether this VM holds the buffer.
    pub fn has_buffer(&self, buffer: &Buffer) -> (r: bool)
        requires
            self.wf(),
        ensures
            r == buffer.spec_in(self),
    {
        self.buffers.contains(buffer.to_pointer().0)
    }

    /// Keeps `bytes` as a new buffer with a fresh identity.
    fn add_buffer(&mut self, bytes: ByteArray) -> (r: Buffer)
        requires
            old(self).wf(),
            old(self).spec_next_object() < u64::MAX,
        ensures
            final(self).wf(),
            r.spec_id() == old(self).spec_next_object(),
            final(self).spec_buffers() == old(self).spec_buffers().insert(r.spec_id(), bytes@),
            final(self).spec_next_object() == old(self).spec_next_object() + 1,
            final(self).spec_same_stores(old(self)),
    {
        let id = self.fresh_object();
        let ghost v = bytes@;
        let _ = self.buffers.insert(id.0, bytes);
        proof {
            assert(self.spec_buffers() =~= old(self).spec_buffers().insert(id.0, v));
        }
        Buffer::from_id(id)
    }

    /// The bytes of the buffer `id`.
    pub(crate) fn buffer_array(&self, id: u64) -> (r: &ByteArray)
        requires
            self.wf(),
            self.spec_buffers().contains_key(id),
        ensures
            r@ == self.spec_buffers()[id],
    {
        self.buffers.get(id).unwrap()
    }

    /// Writes `bytes` at `offset` in the buffer `id`.
    pub(crate) fn write_buffer(&mut self, id: u64, offset: usize, bytes: &[u8])
        requires
            old(self).wf(),
            old(self).spec_buffers().contains_key(id),
            offset + bytes@.len() <= old(self).spec_buffers()[id].len(),
        ensures
            final(self).wf(),
            final(self).spec_buffers() == old(self).spec_buffers().insert(
                id,
                spec_write(old(self).spec_buffers()[id], offset as int, bytes@),
            ),
            final(self).spec_next_object() == old(self).spec_next_object(),
            final(self).spec_same_stores(old(self)),
    {
        match self.buffers.remove(id) {
            Some(mut a) => {
                a.write_bytes(offset, bytes);
                let _ = self.buffers.insert(id, a);
                proof {
                    assert(self.spec_buffers() =~= old(self).spec_buffers().insert(
                        id,
                        spec_write(old(self).spec_buffers()[id], offset as int, bytes@),
                    ));
                }
            },
            None => {},
        }
    }

    /// A value as a Lua value: itself.
    pub fn pack(&self, value: Value) -> (r: Result<Value, Error>)
        ensures
            r == Ok::<Value, Error>(value),
    {
        Ok(value)
    }

    /// A Lua value as a value: itself.
    pub fn unpack(&self, value: Value) -> (r: Result<Value, Error>)
        ensures
            r == Ok::<Value, Error>(value),
    {
        Ok(value)
    }

    /// A list of Lua values as a list: itself.
    pub fn unpack_multi(&self, values: MultiValue) -> (r: Result<MultiValue, Error>)
        ensures
            r matches Ok(m) && m@ == values@,
    {
        Ok(values)
    }

    /// A callback function with a fresh identity.
    pub fn create_function(&mut self) -> (r: Result<crate::function::Function, Error>)
        requires
            old(self).spec_next_object() < u64::MAX,
        ensures
            r matches Ok(f) && f.id.0 == old(self).spec_next_object(),
            final(self).spec_next_object() == old(self).spec_next_object() + 1,
            final(self).wf() == old(self).wf(),
            final(self).spec_same_stores(old(self)),
            final(self).spec_buffers() == old(self).spec_buffers(),
    {
        let id = self.fresh_object();
        Ok(crate::function::Function { id })
    }

    /// A mutable callback function (refusing re-entry) with a fresh identity.
    pub fn create_function_mut(&mut self) -> (r: Result<crate::function::Function, Error>)
        requires
            old(self).spec_next_object() < u64::MAX,
        ensures
            r matches Ok(f) && f.id.0 == old(self).spec_next_object(),
            final(self).spec_next_object() == old(self).spec_next_object() + 1,
            final(self).wf() == old(self).wf(),
            final(self).spec_same_stores(old(self)),
            final(self).spec_buffers() == old(self).spec_buffers(),
    {
        self.create_function()
    }

    /// An async callback function with a fresh identity.
    pub fn create_async_function(&mut self) -> (r: Result<crate::function::Function, Error>)
        requires
            old(self).spec_next_object() < u64::MAX,
        ensures
            r matches Ok(f) && f.id.0 == old(self).spec_next_object(),
            final(self).spec_next_object() == old(self).spec_next_object() + 1,
            final(self).wf() == old(self).wf(),
            final(self).spec_same_stores(old(self)),
            final(self).spec_buffers() == old(self).spec_buffers(),
    {
        self.create_function()
    }

    /// A userdata holding `data` of the type `type_key`, with a fresh identity.
    pub fn create_userdata(&mut self, type_key: u64, data: Value) -> (r: Result<crate::userdata::AnyUserData, Error>)
        requires
            old(self).spec_next_object() < u64::MAX,
        ensures
            r matches Ok(u) && u.spec_id().0 == old(self).spec_next_object() && u.spec_type_key() == Some(type_key)
                && u.spec_cell() == (crate::userdata::UserCell { value: Some(data), shared: 0, exclusive: false }),
            final(self).spec_next_object() == old(self).spec_next_object() + 1,
            final(self).wf() == old(self).wf(),
            final(self).spec_same_stores(old(self)),
            final(self).spec_buffers() == old(self).spec_buffers(),
    {
        let id = self.fresh_object();
        Ok(crate::userdata::AnyUserData::new(id, Some(type_key), data))
    }

    /// A coroutine running `func`, with a fresh identity; it starts resumable.
    pub fn create_thread(&mut self, func: crate::function::Function) -> (r: Result<crate::thread::Thread, Error>)
        requires
            old(self).spec_next_object() < u64::MAX,
        ensures
            r matches Ok(t) && t.spec_id().0 == old(self).spec_next_object()
                && t.spec_status() == crate::thread::ThreadStatus::Resumable,
            final(self).spec_next_object() == old(self).spec_next_object() + 1,
            final(self).wf() == old(self).wf(),
            final(self).spec_same_stores(old(self)),
            final(self).spec_buffers() == old(self).spec_buffers(),
    {
        let id = self.fresh_object();
        Ok(crate::thread::Thread::new(id, crate::thread::ThreadStatus::Resumable))
    }

    /// Runs `f` with a new scope, then ends the scope: its destructors run
    /// once each, last registered first (a callback loses its host closure,
    /// a userdata its value), the host destructors are handed to `run` in
    /// that order, once, and what `f` returned, value or error, is returned.
    /// `f` must leave the VM well formed, as every operation of the library
    /// does.
    pub fn scope<R, F, D>(&mut self, f: F, run: D) -> (r: Result<R, Error>)
        where
            F: FnOnce(&mut Lua, &mut Scope) -> Result<R, Error>,
            D: FnOnce(Vec<u64>),
        requires
            old(self).wf(),
            forall|l: &mut Lua, s: &mut Scope| call_requires(f, (l, s)),
            forall|l: &mut Lua, s: &mut Scope, out: Result<R, Error>|
                (*l).wf() && #[trigger] call_ensures(f, (l, s), out) ==> (*final(l)).wf(),
            forall|hosts: Vec<u64>| call_requires(run, (hosts,)),
        ensures
            exists|l: &mut Lua, s: &mut Scope| {
                &&& *l == *old(self)
                &&& (*s).spec_destructors() == Seq::<Destructor>::empty()
                &&& call_ensures(f, (l, s), r)
                &&& spec_scope_ended(*final(l), *final(self), (*final(s)).spec_destructors())
                &&& exists|hosts: Vec<u64>| {
                    &&& hosts@ == spec_host_destructors((*final(s)).spec_destructors().reverse())
                    &&& call_ensures(run, (hosts,), ())
                }
            },
    {
        let mut scope = Scope::new();
        let out = f(self, &mut scope);
        let ghost after = *self;
        let ghost ds = scope.spec_destructors();
        let order = scope.end();
        let mut hosts: Vec<u64> = Vec::new();
        let mut i: usize = 0;
        while i < order.len()
            invariant
                i <= order@.len(),
                order@ == ds.reverse(),
                hosts@ == spec_host_destructors(order@.take(i as int)),
                spec_scope_ended(after, *self, order@.take(i as int)),
            decreases order.len() - i,
        {
            let d = order[i];
            proof {
                assert(order@.take(i + 1).drop_last() =~= order@.take(i as int));
            }
            if let Destructor::Custom(x) = d {
                hosts.push(x);
            }
            let ghost before_step = *self;
            self.run_destructor(d);
            proof {
                let done = order@.take(i as int);
                let next = order@.take(i + 1);
                assert(next =~= done.push(d));
                assert forall|id: u64| #[trigger] self.spec_scoped_callbacks().contains_key(id) implies
                    self.spec_scoped_callbacks()[id] == (if next.contains(Destructor::Callback(ObjectId(id))) {
                        CallbackState { callback: None, ..after.spec_scoped_callbacks()[id] }
                    } else {
                        after.spec_scoped_callbacks()[id]
                    }) by {
                    assert(before_step.spec_scoped_callbacks().contains_key(id));
                    if d == Destructor::Callback(ObjectId(id)) {
                        assert(next[i as int] == d);
                    } else if next.contains(Destructor::Callback(ObjectId(id))) {
                        let k = choose|k: int| 0 <= k < next.len() && next[k] == Destructor::Callback(ObjectId(id));
                        assert(done[k] == next[k]);
                    } else {
                        if done.contains(Destructor::Callback(ObjectId(id))) {
                            let k = choose|k: int| 0 <= k < done.len() && done[k] == Destructor::Callback(ObjectId(id));
                            assert(next[k] == done[k]);
                        }
                    }
                }
                assert forall|id: u64| #[trigger] self.spec_scoped_userdata().contains_key(id) implies
                    self.spec_scoped_userdata()[id] == (if next.contains(Destructor::UserData(ObjectId(id))) {
                        None
                    } else {
                        after.spec_scoped_userdata()[id]
                    }) by {
                    assert(before_step.spec_scoped_userdata().contains_key(id));
                    if d == Destructor::UserData(ObjectId(id)) {
                        assert(next[i as int] == d);
                    } else if next.contains(Destructor::UserData(ObjectId(id))) {
                        let k = choose|k: int| 0 <= k < next.len() && next[k] == Destructor::UserData(ObjectId(id));
                        assert(done[k] == next[k]);
                    } else {
                        if done.contains(Destructor::UserData(ObjectId(id))) {
                            let k = choose|k: int| 0 <= k < done.len() && done[k] == Destructor::UserData(ObjectId(id));
                            assert(next[k] == done[k]);
                        }
                    }
                }
            }
            i += 1;
        }
        proof {
            assert(order@.take(order@.len() as int) =~= ds.reverse());
            assert forall|d: Destructor| #[trigger] ds.reverse().contains(d) == ds.contains(d) by {
                lemma_reverse_contains(ds, d);
            }
            assert(spec_scope_ended(after, *self, ds));
        }
        run(hosts);
        out
    }

    /// Keeps a callback made by a scope under a fresh identity.
    pub(crate) fn add_scoped_callback(&mut self, callback: u64, mutable: bool) -> (r: ObjectId)
        requires
            old(self).wf(),
            old(self).spec_next_object() < u64::MAX,
        ensures
            r.0 == old(self).spec_next_object(),
            crate::scope::spec_registered_callback(*old(self), *final(self), callback, mutable),
    {
        let id = self.fresh_object();
        let _ = self.scoped_callbacks.insert(id.0, CallbackState { callback: Some(callback), mutable, busy: false });
        id
    }

    /// Keeps the value of a userdata made by a scope under a fresh identity.
    pub(crate) fn add_scoped_userdata(&mut self, data: Value) -> (r: ObjectId)
        requires
            old(self).wf(),
            old(self).spec_next_object() < u64::MAX,
        ensures
            final(self).wf(),
            r.0 == old(self).spec_next_object(),
            final(self).spec_next_object() == old(self).spec_next_object() + 1,
            final(self).spec_same_stores(old(self)),
            final(self).spec_buffers() == old(self).spec_buffers(),
            final(self).spec_scoped_callbacks() == old(self).spec_scoped_callbacks(),
            final(self).spec_scoped_userdata() == old(self).spec_scoped_userdata().insert(r.0, Some(data)),
    {
        let id = self.fresh_object();
        let _ = self.scoped_userdata.insert(id.0, Some(data));
        id
    }

    /// Runs one destructor of an ending scope: a callback loses its host
    /// closure, a userdata its value; a host destructor leaves the VM as it is.
    pub(crate) fn run_destructor(&mut self, d: Destructor)
        requires
            old(self).wf(),
        ensures
            final(self).wf(),
            final(self).spec_same_stores(old(self)),
            final(self).spec_next_object() == old(self).spec_next_object(),
            final(self).spec_buffers() == old(self).spec_buffers(),
            final(self).spec_scoped_callbacks().dom() == old(self).spec_scoped_callbacks().dom(),
            final(self).spec_scoped_userdata().dom() == old(self).spec_scoped_userdata().dom(),
            forall|id: u64| #[trigger] final(self).spec_scoped_callbacks().contains_key(id) ==> final(self).spec_scoped_callbacks()[id] == (
            if d == Destructor::Callback(ObjectId(id)) {
                CallbackState { callback: None, ..old(self).spec_scoped_callbacks()[id] }
            } else {
                old(self).spec_scoped_callbacks()[id]
            }),
            forall|id: u64| #[trigger] final(self).spec_scoped_userdata().contains_key(id) ==> final(self).spec_scoped_userdata()[id] == (
            if d == Destructor::UserData(ObjectId(id)) {
                None
            } else {
                old(self).spec_scoped_userdata()[id]
            }),
    {
        match d {
            Destructor::Callback(id) => {
                let found = match self.scoped_callbacks.get(id.0) {
                    Some(c) => Some(*c),
                    None => None,
                };
                if let Some(c) = found {
                    let _ = self.scoped_callbacks.insert(id.0, CallbackState { callback: None, ..c });
                    proof {
                        assert(self.spec_scoped_callbacks().dom() =~= old(self).spec_scoped_callbacks().dom());
                    }
                }
            },
            Destructor::UserData(id) => {
                if self.scoped_userdata.contains(id.0) {
                    let _ = self.scoped_userdata.insert(id.0, None);
                    proof {
                        assert(self.spec_scoped_userdata().dom() =~= old(self).spec_scoped_userdata().dom());
                    }
                }
            },
            Destructor::Custom(_) => {},
        }
    }

    /// Enters the callback behind `f` for a call from Lua. A function not
    /// made by a scope is called as usual (`None`); one whose scope ended is
    /// refused as destructed; a mutable one already running is refused as
    /// re-entered; otherwise the host closure to call is given, and a
    /// mutable callback is marked running.
    pub fn enter_callback(&mut self, f: &Function) -> (r: Result<Option<u64>, Error>)
        requires
            old(self).wf(),
        ensures
            final(self).wf(),
            final(self).spec_same_stores(old(self)),
            final(self).spec_next_object() == old(self).spec_next_object(),
            final(self).spec_buffers() == old(self).spec_buffers(),
            final(self).spec_scoped_userdata() == old(self).spec_scoped_userdata(),
            !old(self).spec_scoped_callbacks().contains_key(f.id.0) ==> r == Ok::<Option<u64>, Error>(None)
                && final(self).spec_scoped_callbacks() == old(self).spec_scoped_callbacks(),
            old(self).spec_scoped_callbacks().contains_key(f.id.0) ==> ({
                let c = old(self).spec_scoped_callbacks()[f.id.0];
                &&& c.callback is None ==> (r matches Err(e) && e is CallbackDestructed
                    && final(self).spec_scoped_callbacks() == old(self).spec_scoped_callbacks())
                &&& c.callback is Some && c.mutable && c.busy ==> (r matches Err(e) && e is RecursiveMutCallback
                    && final(self).spec_scoped_callbacks() == old(self).spec_scoped_callbacks())
                &&& c.callback is Some && !(c.mutable && c.busy) ==> r == Ok::<Option<u64>, Error>(c.callback)
                    && final(self).spec_scoped_callbacks() == (if c.mutable {
                    old(self).spec_scoped_callbacks().insert(f.id.0, CallbackState { busy: true, ..c })
                } else {
                    old(self).spec_scoped_callbacks()
                })
            }),
    {
        let c = match self.scoped_callbacks.get(f.id.0) {
            None => {
                return Ok(None);
            },
            Some(c) => *c,
        };
        if c.callback.is_none() {
            return Err(Error::CallbackDestructed);
        }
        if c.mutable {
            if c.busy {
                return Err(Error::RecursiveMutCallback);
            }
            let _ = self.scoped_callbacks.insert(f.id.0, CallbackState { busy: true, ..c });
        }
        Ok(c.callback)
    }

    /// Leaves the callback behind `f` after a call: a mutable callback made
    /// by a scope is no longer running.
    pub fn leave_callback(&mut self, f: &Function)
        requires
            old(self).wf(),
        ensures
            final(self).wf(),
            final(self).spec_same_stores(old(self)),
            final(self).spec_next_object() == old(self).spec_next_object(),
            final(self).spec_buffers() == old(self).spec_buffers(),
            final(self).spec_scoped_userdata() == old(self).spec_scoped_userdata(),
            final(self).spec_scoped_callbacks() == (if old(self).spec_scoped_callbacks().contains_key(f.id.0) {
                old(self).spec_scoped_callbacks().insert(
                    f.id.0,
                    CallbackState { busy: false, ..old(self).spec_scoped_callbacks()[f.id.0] },
                )
            } else {
                old(self).spec_scoped_callbacks()
            }),
    {
        let found = match self.scoped_callbacks.get(f.id.0) {
            Some(c) => Some(*c),
            None => None,
        };
        if let Some(c) = found {
            let _ = self.scoped_callbacks.insert(f.id.0, CallbackState { busy: false, ..c });
        }
    }

    /// The value a method of the userdata `ud` reaches from Lua: for one
    /// made by a scope, the value the VM keeps for it, refused as destructed
    /// once the scope ended; for another, the value in its cell, refused as
    /// destructed once taken.
    pub fn userdata_value<'a>(&'a self, ud: &'a AnyUserData) -> (r: Result<&'a Value, Error>)
        requires
            self.wf(),
        ensures
            self.spec_scoped_userdata().contains_key(ud.spec_id().0) ==> match self.spec_scoped_userdata()[ud.spec_id().0] {
                Some(v) => r matches Ok(x) && *x == v,
                None => r matches Err(e) && e is UserDataDestructed,
            },
            !self.spec_scoped_userdata().contains_key(ud.spec_id().0) ==> match ud.spec_cell().value {
                Some(v) => r matches Ok(x) && *x == v,
                None => r matches Err(e) && e is UserDataDestructed,
            },
    {
        match self.scoped_userdata.get(ud.to_pointer().0) {
            Some(slot) => match slot {
                Some(v) => Ok(v),
                None => Err(Error::UserDataDestructed),
            },
            None => match ud.cell_value() {
                Some(v) => Ok(v),
                None => Err(Error::UserDataDestructed),
            },
        }
    }

    /// A chunk of source text to load, named `chunk`.
    pub fn load(&self, source: &str) -> (r: crate::chunk::Chunk)
        ensures
            r.spec_source() matches crate::chunk::ChunkSource::Text(s) && s@ == source@,
            r.spec_name() == crate::chunk::spec_default_name(),
            r.spec_mode() == crate::chunk::ChunkMode::Text,
    {
        crate::chunk::Chunk::from_text(source.to_owned())
    }

    /// A chunk of bytecode to load, named `chunk`.
    pub fn load_bytecode(&self, bytecode: &[u8]) -> (r: crate::chunk::Chunk)
        ensures
            r.spec_source() matches crate::chunk::ChunkSource::Bytecode(b) && b@ == bytecode@,
            r.spec_name() == crate::chunk::spec_default_name(),
            r.spec_mode() == crate::chunk::ChunkMode::Binary,
    {
        crate::chunk::Chunk::from_bytecode(crate::string::copy_bytes(bytecode))
    }

    // --- registry ----------------------------------------------------------

    /// Whether `key` was minted by this VM.
    pub fn owns_registry_value(&self, key: &RegistryKey) -> (r: bool)
        ensures
            r == (key.spec_state() == self.spec_id()),
    {
        key.state() == self.id
    }

    /// Stores `value` in a fresh registry slot and returns its key.
    pub fn create_registry_value(&mut self, value: Value) -> (r: Result<RegistryKey, Error>)
        requires
            old(self).wf(),
            old(self).spec_registry_used() + 1 < u64::MAX,
        ensures
            final(self).wf(),
            r matches Ok(k) && k.spec_state() == old(self).spec_id()
                && !old(self).spec_registry().contains_key(k.spec_slot())
                && final(self).spec_registry() == old(self).spec_registry().insert(k.spec_slot(), value)
                && final(self).spec_registry_holders() == old(self).spec_registry_holders().insert(k.spec_slot(), 1),
            final(self).spec_registry_used() == old(self).spec_registry_used() + 1,
            final(self).spec_id() == old(self).spec_id(),
            final(self).spec_named() == old(self).spec_named(),
            final(self).spec_app_slots() == old(self).spec_app_slots(),
            final(self).spec_app_borrows() == old(self).spec_app_borrows(),
            final(self).spec_next_object() == old(self).spec_next_object(),
            final(self).spec_named_size() == old(self).spec_named_size(),
            final(self).spec_modules() == old(self).spec_modules(),
            final(self).spec_modules_size() == old(self).spec_modules_size(),
            final(self).spec_buffers() == old(self).spec_buffers(),
    {
        let slot = self.registry.create(value);
        Ok(RegistryKey::new(self.id, slot))
    }

    /// The value stored under `key`; a key of another VM is refused.
    pub fn registry_value(&self, key: &RegistryKey) -> (r: Result<Value, Error>)
        ensures
            key.spec_state() != self.spec_id() ==> (r matches Err(e) && e is MismatchedRegistryKey),
            key.spec_state() == self.spec_id() && self.spec_registry().contains_key(key.spec_slot()) ==> (r matches Ok(
                v,
            ) && spec_same_value(v, self.spec_registry()[key.spec_slot()])),
            key.spec_state() == self.spec_id() && !self.spec_registry().contains_key(key.spec_slot()) ==> (r matches Ok(
                v,
            ) && v is Nil),
    {
        if !self.owns_registry_value(key) {
            return Err(Error::MismatchedRegistryKey);
        }
        Ok(self.registry.get(key.slot()))
    }

    /// Lets go of `key`: its slot is released with its last key (a value
    /// shared by clones of the key stays while one of them holds it); a key
    /// of another VM is refused.
    pub fn remove_registry_value(&mut self, key: RegistryKey) -> (r: Result<(), Error>)
        requires
            old(self).wf(),
        ensures
            final(self).wf(),
            key.spec_state() != old(self).spec_id() ==> (r matches Err(e) && e is MismatchedRegistryKey
                && final(self).spec_registry() == old(self).spec_registry()
                && final(self).spec_registry_holders() == old(self).spec_registry_holders()),
            key.spec_state() == old(self).spec_id() ==> r is Ok,
            key.spec_state() == old(self).spec_id() && old(self).spec_registry_holders().contains_key(key.spec_slot())
                && old(self).spec_registry_holders()[key.spec_slot()] > 1 ==> (final(self).spec_registry()
                == old(self).spec_registry() && final(self).spec_registry_holders()
                == old(self).spec_registry_holders().insert(
                key.spec_slot(),
                (old(self).spec_registry_holders()[key.spec_slot()] - 1) as u64,
            )),
            key.spec_state() == old(self).spec_id() && !(old(self).spec_registry_holders().contains_key(key.spec_slot())
                && old(self).spec_registry_holders()[key.spec_slot()] > 1) ==> (final(self).spec_registry()
                == old(self).spec_registry().remove(key.spec_slot()) && final(self).spec_registry_holders()
                == old(self).spec_registry_holders().remove(key.spec_slot())),
            final(self).spec_registry_used() == old(self).spec_registry_used(),
            final(self).spec_id() == old(self).spec_id(),
            final(self).spec_named() == old(self).spec_named(),
            final(self).spec_next_object() == old(self).spec_next_object(),
            final(self).spec_named_size() == old(self).spec_named_size(),
            final(self).spec_modules() == old(self).spec_modules(),
            final(self).spec_modules_size() == old(self).spec_modules_size(),
            final(self).spec_buffers() == old(self).spec_buffers(),
    {
        if !self.owns_registry_value(&key) {
            return Err(Error::MismatchedRegistryKey);
        }
        self.registry.remove(key.slot());
        Ok(())
    }

    /// Replaces the value stored under `key`; a key of another VM is refused.
    pub fn replace_registry_value(&mut self, key: &RegistryKey, value: Value) -> (r: Result<(), Error>)
        requires
            old(self).wf(),
        ensures
            final(self).wf(),
            key.spec_state() != old(self).spec_id() ==> (r matches Err(e) && e is MismatchedRegistryKey
                && final(self).spec_registry() == old(self).spec_registry()),
            key.spec_state() == old(self).spec_id() && old(self).spec_registry().contains_key(key.spec_slot()) ==> (r is Ok
                && final(self).spec_registry() == old(self).spec_registry().insert(key.spec_slot(), value)),
            key.spec_state() == old(self).spec_id() && !old(self).spec_registry().contains_key(key.spec_slot()) ==> (r is Ok
                && final(self).spec_registry() == old(self).spec_registry()),
            final(self).spec_registry_holders() == old(self).spec_registry_holders(),
            final(self).spec_registry_used() == old(self).spec_registry_used(),
            final(self).spec_id() == old(self).spec_id(),
            final(self).spec_next_object() == old(self).spec_next_object(),
            final(self).spec_named_size() == old(self).spec_named_size(),
            final(self).spec_modules() == old(self).spec_modules(),
            final(self).spec_modules_size() == old(self).spec_modules_size(),
            final(self).spec_buffers() == old(self).spec_buffers(),
    {
        if !self.owns_registry_value(key) {
            return Err(Error::MismatchedRegistryKey);
        }
        self.registry.replace(key.slot(), value);
        Ok(())
    }

    /// Another key to the slot of `key` (it compares equal to `key`): the
    /// slot, if this VM holds it, gains a holder, so the value stays until
    /// every key has let go of it.
    pub fn clone_registry_key(&mut self, key: &RegistryKey) -> (r: RegistryKey)
        requires
            old(self).wf(),
            key.spec_state() == old(self).spec_id() && old(self).spec_registry_holders().contains_key(key.spec_slot())
                ==> old(self).spec_registry_holders()[key.spec_slot()] < u64::MAX,
        ensures
            final(self).wf(),
            r.spec_state() == key.spec_state() && r.spec_slot() == key.spec_slot(),
            final(self).spec_registry() == old(self).spec_registry(),
            key.spec_state() == old(self).spec_id() && old(self).spec_registry_holders().contains_key(key.spec_slot())
                ==> final(self).spec_registry_holders() == old(self).spec_registry_holders().insert(
                key.spec_slot(),
                (old(self).spec_registry_holders()[key.spec_slot()] + 1) as u64,
            ),
            !(key.spec_state() == old(self).spec_id() && old(self).spec_registry_holders().contains_key(key.spec_slot()))
                ==> final(self).spec_registry_holders() == old(self).spec_registry_holders(),
            final(self).spec_registry_used() == old(self).spec_registry_used(),
            final(self).spec_id() == old(self).spec_id(),
            final(self).spec_named() == old(self).spec_named(),
            final(self).spec_next_object() == old(self).spec_next_object(),
            final(self).spec_named_size() == old(self).spec_named_size(),
            final(self).spec_modules() == old(self).spec_modules(),
            final(self).spec_modules_size() == old(self).spec_modules_size(),
            final(self).spec_buffers() == old(self).spec_buffers(),
    {
        if self.owns_registry_value(key) {
            self.registry.share(key.slot());
        }
        RegistryKey::new(key.state(), key.slot())
    }

    /// Slots are released as soon as their key goes: nothing is left to expire.
    pub fn expire_registry_values(&mut self)
        ensures
            *final(self) == *old(self),
    {
    }

    /// Enters or leaves sandbox mode. Entering keeps the globals table
    /// `globals` under [`SANDBOX_SAVED_GLOBALS_NAME`] unless a table is
    /// already kept there (a second entry keeps the first), and has the VM
    /// sandbox itself; leaving has the VM put back the table kept there, if
    /// any, and clears the entry.
    pub fn sandbox(&mut self, enabled: bool, globals: ObjectId) -> (r: SandboxAction)
        requires
            old(self).wf(),
            old(self).spec_named_size() + 1 < i64::MAX,
        ensures
            final(self).wf(),
            final(self).spec_sandboxed() == enabled,
            enabled ==> r is Sandbox,
            enabled ==> final(self).spec_named() == (if old(self).spec_named().get(spec_sandbox_key()) matches Some(
                Value::Table(_),
            ) {
                old(self).spec_named()
            } else {
                old(self).spec_named().insert(spec_sandbox_key(), Value::Table(globals))
            }),
            !enabled ==> match old(self).spec_named().get(spec_sandbox_key()) {
                Some(Value::Table(t)) => r == SandboxAction::Restore(t) && final(self).spec_named() == old(
                    self,
                ).spec_named().remove(spec_sandbox_key()),
                _ => r is Nothing && final(self).spec_named() == old(self).spec_named(),
            },
            final(self).spec_id() == old(self).spec_id(),
            final(self).spec_registry() == old(self).spec_registry(),
            final(self).spec_modules() == old(self).spec_modules(),
            final(self).spec_app_slots() == old(self).spec_app_slots(),
            final(self).spec_next_object() == old(self).spec_next_object(),
            final(self).spec_registry_used() == old(self).spec_registry_used(),
            final(self).spec_modules_size() == old(self).spec_modules_size(),
            final(self).spec_buffers() == old(self).spec_buffers(),
    {
        self.sandboxed = enabled;
        let key = Value::String(create_string(SANDBOX_SAVED_GLOBALS_NAME.as_bytes()));
        let saved = self.named.raw_get(&key);
        proof {
            if self.named@.contains_key(spec_sandbox_key()) {
                crate::table::lemma_values_not_nil(&self.named, spec_sandbox_key());
            }
        }
        if enabled {
            if let Value::Table(_) = saved {
            } else {
                let _ = self.named.raw_set(key, Value::Table(globals));
            }
            SandboxAction::Sandbox
        } else {
            match saved {
                Value::Table(t) => {
                    let _ = self.named.raw_set(key, Value::Nil);
                    SandboxAction::Restore(t)
                },
                _ => SandboxAction::Nothing,
            }
        }
    }

    /// Whether the VM is in sandbox mode.
    pub fn is_sandboxed(&self) -> (r: bool)
        ensures
            r == self.spec_sandboxed(),
    {
        self.sandboxed
    }

    /// Stores `value` under `name` in the registry; `nil` removes it. A name
    /// holding a NUL byte is refused.
    pub fn set_named_registry_value(&mut self, name: &str, value: Value) -> (r: Result<(), Error>)
        requires
            old(self).wf(),
            old(self).spec_named_size() + 1 < i64::MAX,
        ensures
            final(self).wf(),
            final(self).spec_named_size() <= old(self).spec_named_size() + 1,
            spec_has_nul(name.spec_bytes()) ==> (r matches Err(e) && spec_nul_name_error(e)
                && final(self).spec_named() == old(self).spec_named()),
            !spec_has_nul(name.spec_bytes()) ==> (r is Ok && final(self).spec_named() == spec_after_set(
                old(self).spec_named(),
                Key::String(name.spec_bytes()),
                value,
            )),
            final(self).spec_id() == old(self).spec_id(),
            final(self).spec_registry() == old(self).spec_registry(),
            final(self).spec_modules() == old(self).spec_modules(),
            final(self).spec_app_slots() == old(self).spec_app_slots(),
            final(self).spec_app_borrows() == old(self).spec_app_borrows(),
            final(self).spec_next_object() == old(self).spec_next_object(),
            final(self).spec_registry_used() == old(self).spec_registry_used(),
            final(self).spec_modules_size() == old(self).spec_modules_size(),
            final(self).spec_buffers() == old(self).spec_buffers(),
    {
        let bytes = name.as_bytes();
        if has_nul(bytes) {
            return Err(Error::runtime("name contains a NUL byte"));
        }
        let _ = self.named.raw_set(Value::String(create_string(bytes)), value);
        Ok(())
    }

    /// The value stored under `name` in the registry; `nil` when unset. A
    /// name holding a NUL byte is refused.
    pub fn named_registry_value(&self, name: &str) -> (r: Result<Value, Error>)
        requires
            self.wf(),
        ensures
            spec_has_nul(name.spec_bytes()) ==> (r matches Err(e) && spec_nul_name_error(e)),
            !spec_has_nul(name.spec_bytes()) && self.spec_named().contains_key(Key::String(name.spec_bytes())) ==> (r matches Ok(
                v,
            ) && spec_same_value(v, self.spec_named()[Key::String(name.spec_bytes())])),
            !spec_has_nul(name.spec_bytes()) && !self.spec_named().contains_key(Key::String(name.spec_bytes())) ==> (r matches Ok(
                v,
            ) && v is Nil),
    {
        let bytes = name.as_bytes();
        if has_nul(bytes) {
            return Err(Error::runtime("name contains a NUL byte"));
        }
        Ok(self.named.raw_get(&Value::String(create_string(bytes))))
    }

    /// Removes the value stored under `name` in the registry.
    pub fn unset_named_registry_value(&mut self, name: &str) -> (r: Result<(), Error>)
        requires
            old(self).wf(),
            old(self).spec_named_size() + 1 < i64::MAX,
        ensures
            final(self).wf(),
            spec_has_nul(name.spec_bytes()) ==> (r matches Err(e) && spec_nul_name_error(e)
                && final(self).spec_named() == old(self).spec_named()),
            !spec_has_nul(name.spec_bytes()) ==> (r is Ok && final(self).spec_named() == old(self).spec_named().remove(
                Key::String(name.spec_bytes()),
            )),
            final(self).spec_registry() == old(self).spec_registry(),
            final(self).spec_next_object() == old(self).spec_next_object(),
            final(self).spec_registry_used() == old(self).spec_registry_used(),
            final(self).spec_modules_size() == old(self).spec_modules_size(),
            final(self).spec_buffers() == old(self).spec_buffers(),
    {
        self.set_named_registry_value(name, Value::Nil)
    }

    // --- modules -------------------------------------------------------------

    /// Registers `module` under the alias `name` (which must begin with `@`)
    /// and under its lower-cased form.
    pub fn register_module(&mut self, name: &str, module: Value) -> (r: Result<(), Error>)
        requires
            old(self).wf(),
            old(self).spec_modules_size() + 2 < i64::MAX,
        ensures
            final(self).wf(),
            final(self).spec_modules_size() <= old(self).spec_modules_size() + 2,
            r is Ok <==> crate::module::spec_is_alias(name.spec_bytes()),
            r matches Err(e) ==> crate::module::spec_bad_alias_error(e) && final(self).spec_modules() == old(self).spec_modules(),
            r is Ok ==> (exists|copy: Value| spec_same_value(copy, module)
                && final(self).spec_modules() == spec_after_set(
                    spec_after_set(old(self).spec_modules(), Key::String(name.spec_bytes()), copy),
                    Key::String(crate::module::spec_ascii_lower(name.spec_bytes())),
                    module,
                )),
            final(self).spec_registry() == old(self).spec_registry(),
            final(self).spec_named() == old(self).spec_named(),
            final(self).spec_next_object() == old(self).spec_next_object(),
            final(self).spec_registry_used() == old(self).spec_registry_used(),
            final(self).spec_named_size() == old(self).spec_named_size(),
            final(self).spec_app_slots() == old(self).spec_app_slots(),
            final(self).spec_app_borrows() == old(self).spec_app_borrows(),
            final(self).spec_buffers() == old(self).spec_buffers(),
    {
        crate::module::register_in(&mut self.modules, name, module)
    }

    /// Removes the alias `name` and its lower-cased form.
    pub fn unload_module(&mut self, name: &str) -> (r: Result<(), Error>)
        requires
            old(self).wf(),
            old(self).spec_modules_size() + 2 < i64::MAX,
        ensures
            final(self).wf(),
            r is Ok,
            final(self).spec_modules() == old(self).spec_modules().remove(Key::String(name.spec_bytes())).remove(
                Key::String(crate::module::spec_ascii_lower(name.spec_bytes())),
            ),
            final(self).spec_registry() == old(self).spec_registry(),
            final(self).spec_named() == old(self).spec_named(),
            final(self).spec_next_object() == old(self).spec_next_object(),
            final(self).spec_registry_used() == old(self).spec_registry_used(),
            final(self).spec_named_size() == old(self).spec_named_size(),
            final(self).spec_app_slots() == old(self).spec_app_slots(),
            final(self).spec_app_borrows() == old(self).spec_app_borrows(),
            final(self).spec_buffers() == old(self).spec_buffers(),
    {
        crate::module::unload_in(&mut self.modules, name);
        Ok(())
    }

    /// What `require(name)` gives: the registered module, exactly or by the
    /// lower-cased alias.
    pub fn require(&self, name: &str) -> (r: Result<Value, Error>)
        requires
            self.wf(),
        ensures
            crate::module::spec_resolve(self.spec_modules(), name.spec_bytes()) matches Some(v) ==> (r matches Ok(x)
                && spec_same_value(x, v)),
            crate::module::spec_resolve(self.spec_modules(), name.spec_bytes()) is None ==> (r matches Err(e)
                && crate::module::spec_not_found_error(e, name@)),
    {
        crate::module::require_in(&self.modules, name)
    }

    // --- application data ---------------------------------------------------

    /// Stores `data` under the type key `key`; no borrow may be live.
    pub fn set_app_data(&mut self, key: u64, data: Value)
        requires
            old(self).wf(),
            old(self).spec_app_borrows() == 0,
        ensures
            final(self).wf(),
            final(self).spec_app_borrows() == 0,
            final(self).spec_app_slots() == old(self).spec_app_slots().insert(
                key,
                AppSlot { value: data, shared: 0, exclusive: false },
            ),
            final(self).spec_registry() == old(self).spec_registry(),
            final(self).spec_named() == old(self).spec_named(),
            final(self).spec_next_object() == old(self).spec_next_object(),
            final(self).spec_registry_used() == old(self).spec_registry_used(),
            final(self).spec_named_size() == old(self).spec_named_size(),
            final(self).spec_modules_size() == old(self).spec_modules_size(),
            final(self).spec_buffers() == old(self).spec_buffers(),
    {
        self.app_data.set(key, data);
    }

    /// Stores `data` under `key` unless a borrow is live; gives back the value
    /// it replaces.
    pub fn try_set_app_data(&mut self, key: u64, data: Value) -> (r: Result<Option<Value>, Error>)
        requires
            old(self).wf(),
        ensures
            final(self).wf(),
            final(self).spec_app_borrows() == old(self).spec_app_borrows(),
            old(self).spec_app_borrows() != 0 ==> (r matches Err(e) && crate::app_data::spec_conflict_error(e)
                && final(self).spec_app_slots() == old(self).spec_app_slots()),
            old(self).spec_app_borrows() != 0 ==> final(self).spec_app_values() == old(self).spec_app_values(),
            old(self).spec_app_borrows() == 0 ==> (r matches Ok(prev) && final(self).spec_app_slots()
                == old(self).spec_app_slots().insert(key, AppSlot { value: data, shared: 0, exclusive: false })
                && (prev matches Some(p) ==> old(self).spec_app_slots().contains_key(key) && p == old(
                self,
            ).spec_app_slots()[key].value) && (prev is None ==> !old(self).spec_app_slots().contains_key(key))),
            final(self).spec_registry() == old(self).spec_registry(),
            final(self).spec_next_object() == old(self).spec_next_object(),
            final(self).spec_registry_used() == old(self).spec_registry_used(),
            final(self).spec_named_size() == old(self).spec_named_size(),
            final(self).spec_modules_size() == old(self).spec_modules_size(),
            final(self).spec_buffers() == old(self).spec_buffers(),
    {
        self.app_data.try_set(key, data)
    }

    /// Borrows the value under `key` shared; the value must not be
    /// exclusively borrowed.
    pub fn app_data_ref(&mut self, key: u64) -> (r: Option<AppDataRef>)
        requires
            old(self).wf(),
            old(self).spec_app_borrows() < u64::MAX,
            old(self).spec_app_slots().contains_key(key) ==> !old(self).spec_app_slots()[key].exclusive
                && old(self).spec_app_slots()[key].shared < u64::MAX,
        ensures
            final(self).wf(),
            !old(self).spec_app_slots().contains_key(key) ==> r is None && final(self).spec_app_slots() == old(
                self,
            ).spec_app_slots() && final(self).spec_app_borrows() == old(self).spec_app_borrows(),
            old(self).spec_app_slots().contains_key(key) ==> (r matches Some(g) && g.spec_key() == key
                && final(self).spec_app_borrows() == old(self).spec_app_borrows() + 1
                && final(self).spec_app_slots() == old(self).spec_app_slots().insert(
                    key,
                    AppSlot {
                        value: old(self).spec_app_slots()[key].value,
                        shared: (old(self).spec_app_slots()[key].shared + 1) as u64,
                        exclusive: false,
                    },
                )),
            final(self).spec_app_values() == old(self).spec_app_values(),
            final(self).spec_next_object() == old(self).spec_next_object(),
            final(self).spec_registry_used() == old(self).spec_registry_used(),
            final(self).spec_named_size() == old(self).spec_named_size(),
            final(self).spec_modules_size() == old(self).spec_modules_size(),
            final(self).spec_buffers() == old(self).spec_buffers(),
    {
        let r = {
            match self.app_data.try_borrow(key) {
                Ok(g) => g,
                Err(_) => None,
            }
        };
        assert(self.spec_app_values() =~= old(self).spec_app_values());
        r
    }

    /// Borrows the value under `key` shared, unless it is exclusively borrowed.
    pub fn try_app_data_ref(&mut self, key: u64) -> (r: Result<Option<AppDataRef>, Error>)
        requires
            old(self).wf(),
            old(self).spec_app_borrows() < u64::MAX,
            old(self).spec_app_slots().contains_key(key) ==> old(self).spec_app_slots()[key].shared < u64::MAX,
        ensures
            final(self).wf(),
            !old(self).spec_app_slots().contains_key(key) ==> (r matches Ok(g) && g is None),
            old(self).spec_app_slots().contains_key(key) && old(self).spec_app_slots()[key].exclusive ==> (r matches Err(e)
                && crate::app_data::spec_mut_borrowed_error(e)),
            old(self).spec_app_slots().contains_key(key) && !old(self).spec_app_slots()[key].exclusive ==> (r matches Ok(
                g,
            ) && g matches Some(guard) && guard.spec_key() == key),
            r matches Ok(Some(_)) ==> final(self).spec_app_borrows() == old(self).spec_app_borrows() + 1,
            !(r matches Ok(Some(_))) ==> final(self).spec_app_slots() == old(self).spec_app_slots()
                && final(self).spec_app_borrows() == old(self).spec_app_borrows(),
            final(self).spec_app_values() == old(self).spec_app_values(),
            final(self).spec_next_object() == old(self).spec_next_object(),
            final(self).spec_registry_used() == old(self).spec_registry_used(),
            final(self).spec_named_size() == old(self).spec_named_size(),
            final(self).spec_modules_size() == old(self).spec_modules_size(),
            final(self).spec_buffers() == old(self).spec_buffers(),
    {
        let r = {
            self.app_data.try_borrow(key)
        };
        assert(self.spec_app_values() =~= old(self).spec_app_values());
        r
    }

    /// Borrows the value under `key` exclusively; the value must not be
    /// borrowed.
    pub fn app_data_mut(&mut self, key: u64) -> (r: Option<AppDataRefMut>)
        requires
            old(self).wf(),
            old(self).spec_app_borrows() < u64::MAX,
            old(self).spec_app_slots().contains_key(key) ==> !old(self).spec_app_slots()[key].exclusive
                && old(self).spec_app_slots()[key].shared == 0,
        ensures
            final(self).wf(),
            !old(self).spec_app_slots().contains_key(key) ==> r is None && final(self).spec_app_slots() == old(
                self,
            ).spec_app_slots() && final(self).spec_app_borrows() == old(self).spec_app_borrows(),
            old(self).spec_app_slots().contains_key(key) ==> (r matches Some(g) && g.spec_key() == key
                && final(self).spec_app_borrows() == old(self).spec_app_borrows() + 1
                && final(self).spec_app_slots() == old(self).spec_app_slots().insert(
                    key,
                    AppSlot { value: old(self).spec_app_slots()[key].value, shared: 0, exclusive: true },
                )),
            final(self).spec_app_values() == old(self).spec_app_values(),
            final(self).spec_next_object() == old(self).spec_next_object(),
            final(self).spec_registry_used() == old(self).spec_registry_used(),
            final(self).spec_named_size() == old(self).spec_named_size(),
            final(self).spec_modules_size() == old(self).spec_modules_size(),
            final(self).spec_buffers() == old(self).spec_buffers(),
    {
        let r = {
            match self.app_data.try_borrow_mut(key) {
                Ok(g) => g,
                Err(_) => None,
            }
        };
        assert(self.spec_app_values() =~= old(self).spec_app_values());
        r
    }

    /// Borrows the value under `key` exclusively, unless it is borrowed.
    pub fn try_app_data_mut(&mut self, key: u64) -> (r: Result<Option<AppDataRefMut>, Error>)
        requires
            old(self).wf(),
            old(self).spec_app_borrows() < u64::MAX,
        ensures
            final(self).wf(),
            !old(self).spec_app_slots().contains_key(key) ==> (r matches Ok(g) && g is None),
            old(self).spec_app_slots().contains_key(key) && (old(self).spec_app_slots()[key].exclusive
                || old(self).spec_app_slots()[key].shared > 0) ==> (r matches Err(e)
                && crate::app_data::spec_borrowed_error(e)),
            old(self).spec_app_slots().contains_key(key) && !old(self).spec_app_slots()[key].exclusive
                && old(self).spec_app_slots()[key].shared == 0 ==> (r matches Ok(g) && g matches Some(guard)
                && guard.spec_key() == key),
            r matches Ok(Some(_)) ==> final(self).spec_app_borrows() == old(self).spec_app_borrows() + 1,
            !(r matches Ok(Some(_))) ==> final(self).spec_app_slots() == old(self).spec_app_slots()
                && final(self).spec_app_borrows() == old(self).spec_app_borrows(),
            final(self).spec_app_values() == old(self).spec_app_values(),
            final(self).spec_next_object() == old(self).spec_next_object(),
            final(self).spec_registry_used() == old(self).spec_registry_used(),
            final(self).spec_named_size() == old(self).spec_named_size(),
            final(self).spec_modules_size() == old(self).spec_modules_size(),
            final(self).spec_buffers() == old(self).spec_buffers(),
    {
        let r = {
            self.app_data.try_borrow_mut(key)
        };
        assert(self.spec_app_values() =~= old(self).spec_app_values());
        r
    }

    /// The value that a shared borrow reads.
    pub fn app_data_value(&self, guard: &AppDataRef) -> (r: Option<&Value>)
        requires
            self.wf(),
        ensures
            r matches Some(v) ==> self.spec_app_slots().contains_key(guard.spec_key())
                && *v == self.spec_app_slots()[guard.spec_key()].value,
            r is None ==> !self.spec_app_slots().contains_key(guard.spec_key()),
    {
        self.app_data.read(guard)
    }

    /// Writes through an exclusive borrow.
    pub fn set_app_data_value(&mut self, guard: &AppDataRefMut, value: Value)
        requires
            old(self).wf(),
        ensures
            final(self).wf(),
            final(self).spec_app_borrows() == old(self).spec_app_borrows(),
            old(self).spec_app_slots().contains_key(guard.spec_key()) ==> final(self).spec_app_slots() == old(
                self,
            ).spec_app_slots().insert(
                guard.spec_key(),
                AppSlot {
                    value: value,
                    shared: old(self).spec_app_slots()[guard.spec_key()].shared,
                    exclusive: old(self).spec_app_slots()[guard.spec_key()].exclusive,
                },
            ),
            !old(self).spec_app_slots().contains_key(guard.spec_key()) ==> final(self).spec_app_slots() == old(
                self,
            ).spec_app_slots(),
            final(self).spec_next_object() == old(self).spec_next_object(),
            final(self).spec_registry_used() == old(self).spec_registry_used(),
            final(self).spec_named_size() == old(self).spec_named_size(),
            final(self).spec_modules_size() == old(self).spec_modules_size(),
            final(self).spec_buffers() == old(self).spec_buffers(),
    {
        self.app_data.write(guard, value);
    }

    /// Ends a shared borrow.
    pub fn release_app_data_ref(&mut self, guard: AppDataRef)
        requires
            old(self).wf(),
        ensures
            final(self).wf(),
            final(self).spec_app_borrows() == if old(self).spec_app_borrows() > 0 {
                (old(self).spec_app_borrows() - 1) as u64
            } else {
                0
            },
            old(self).spec_app_slots().contains_key(guard.spec_key()) ==> final(self).spec_app_slots() == old(
                self,
            ).spec_app_slots().insert(
                guard.spec_key(),
                AppSlot {
                    value: old(self).spec_app_slots()[guard.spec_key()].value,
                    shared: if old(self).spec_app_slots()[guard.spec_key()].shared > 0 {
                        (old(self).spec_app_slots()[guard.spec_key()].shared - 1) as u64
                    } else {
                        0
                    },
                    exclusive: old(self).spec_app_slots()[guard.spec_key()].exclusive,
                },
            ),
            !old(self).spec_app_slots().contains_key(guard.spec_key()) ==> final(self).spec_app_slots() == old(
                self,
            ).spec_app_slots(),
            final(self).spec_app_values() == old(self).spec_app_values(),
            final(self).spec_next_object() == old(self).spec_next_object(),
            final(self).spec_registry_used() == old(self).spec_registry_used(),
            final(self).spec_named_size() == old(self).spec_named_size(),
            final(self).spec_modules_size() == old(self).spec_modules_size(),
            final(self).spec_buffers() == old(self).spec_buffers(),
    {
        self.app_data.release(guard);
        assert(self.spec_app_values() =~= old(self).spec_app_values());
    }

    /// Ends an exclusive borrow.
    pub fn release_app_data_mut(&mut self, guard: AppDataRefMut)
        requires
            old(self).wf(),
        ensures
            final(self).wf(),
            final(self).spec_app_borrows() == if old(self).spec_app_borrows() > 0 {
                (old(self).spec_app_borrows() - 1) as u64
            } else {
                0
            },
            old(self).spec_app_slots().contains_key(guard.spec_key()) ==> final(self).spec_app_slots() == old(
                self,
            ).spec_app_slots().insert(
                guard.spec_key(),
                AppSlot {
                    value: old(self).spec_app_slots()[guard.spec_key()].value,
                    shared: old(self).spec_app_slots()[guard.spec_key()].shared,
                    exclusive: false,
                },
            ),
            !old(self).spec_app_slots().contains_key(guard.spec_key()) ==> final(self).spec_app_slots() == old(
                self,
            ).spec_app_slots(),
            final(self).spec_app_values() == old(self).spec_app_values(),
            final(self).spec_next_object() == old(self).spec_next_object(),
            final(self).spec_registry_used() == old(self).spec_registry_used(),
            final(self).spec_named_size() == old(self).spec_named_size(),
            final(self).spec_modules_size() == old(self).spec_modules_size(),
            final(self).spec_buffers() == old(self).spec_buffers(),
    {
        self.app_data.release_mut(guard);
        assert(self.spec_app_values() =~= old(self).spec_app_values());
    }

    /// Removes and gives back the value under `key`; no borrow may be live.
    pub fn remove_app_data(&mut self, key: u64) -> (r: Option<Value>)
        requires
            old(self).wf(),
            old(self).spec_app_borrows() == 0,
        ensures
            final(self).wf(),
            final(self).spec_app_borrows() == 0,
            final(self).spec_app_slots() == old(self).spec_app_slots().remove(key),
            r matches Some(v) ==> old(self).spec_app_slots().contains_key(key) && v == old(
                self,
            ).spec_app_slots()[key].value,
            r is None ==> !old(self).spec_app_slots().contains_key(key),
            final(self).spec_next_object() == old(self).spec_next_object(),
            final(self).spec_registry_used() == old(self).spec_registry_used(),
            final(self).spec_named_size() == old(self).spec_named_size(),
            final(self).spec_modules_size() == old(self).spec_modules_size(),
            final(self).spec_buffers() == old(self).spec_buffers(),
    {
        self.app_data.remove(key)
    }

    // --- type metatables ----------------------------------------------------

    /// Sets (or, with `None`, removes) the metatable shared by all values of
    /// the type `type_key`.
    pub fn set_type_metatable(&mut self, type_key: u64, metatable: Option<ObjectId>)
        requires
            old(self).wf(),
        ensures
            final(self).wf(),
            metatable matches Some(m) ==> final(self).spec_type_metatables() == old(self).spec_type_metatables().insert(
                type_key,
                m,
            ),
            metatable is None ==> final(self).spec_type_metatables() == old(self).spec_type_metatables().remove(type_key),
            final(self).spec_next_object() == old(self).spec_next_object(),
            final(self).spec_registry_used() == old(self).spec_registry_used(),
            final(self).spec_named_size() == old(self).spec_named_size(),
            final(self).spec_modules_size() == old(self).spec_modules_size(),
            final(self).spec_buffers() == old(self).spec_buffers(),
    {
        match metatable {
            Some(m) => {
                let _ = self.type_metatables.insert(type_key, m);
            },
            None => {
                let _ = self.type_metatables.remove(type_key);
            },
        }
    }

    /// The metatable shared by all values of the type `type_key`.
    pub fn type_metatable(&self, type_key: u64) -> (r: Option<ObjectId>)
        requires
            self.wf(),
        ensures
            r == self.spec_type_metatables().get(type_key),
    {
        match self.type_metatables.get(type_key) {
            Some(m) => Some(*m),
            None => None,
        }
    }

    // --- garbage collector ----------------------------------------------------

    /// Sets the incremental parameters given as positive arguments; returns
    /// the previous mode.
    pub fn gc_inc(&mut self, pause: i32, step_multiplier: i32, step_size: i32) -> (r: GcMode)
        ensures
            r == GcMode::Incremental(spec_current(old(self).spec_gc())),
            final(self).spec_gc() == spec_applied(old(self).spec_gc(), spec_inc_params(pause, step_multiplier, step_size)),
            final(self).wf() == old(self).wf(),
            final(self).spec_registry() == old(self).spec_registry(),
            final(self).spec_next_object() == old(self).spec_next_object(),
            final(self).spec_registry_used() == old(self).spec_registry_used(),
            final(self).spec_named_size() == old(self).spec_named_size(),
            final(self).spec_modules_size() == old(self).spec_modules_size(),
            final(self).spec_buffers() == old(self).spec_buffers(),
    {
        self.gc.gc_inc(pause, step_multiplier, step_size)
    }

    /// Sets the collector mode; returns the previous (incremental) mode.
    pub fn gc_set_mode(&mut self, mode: GcMode) -> (r: GcMode)
        ensures
            r == GcMode::Incremental(spec_current(old(self).spec_gc())),
            mode matches GcMode::Incremental(p) ==> final(self).spec_gc() == spec_applied(old(self).spec_gc(), p),
            mode is Generational ==> final(self).spec_gc() == old(self).spec_gc(),
            final(self).wf() == old(self).wf(),
            final(self).spec_registry() == old(self).spec_registry(),
            final(self).spec_next_object() == old(self).spec_next_object(),
            final(self).spec_registry_used() == old(self).spec_registry_used(),
            final(self).spec_named_size() == old(self).spec_named_size(),
            final(self).spec_modules_size() == old(self).spec_modules_size(),
            final(self).spec_buffers() == old(self).spec_buffers(),
    {
        self.gc.gc_set_mode(mode)
    }

    // --- memory ---------------------------------------------------------------

    /// Sets the memory limit; returns the previous limit (0: none).
    pub fn set_memory_limit(&mut self, limit: usize) -> (r: Result<usize, Error>)
        requires
            old(self).wf(),
        ensures
            final(self).wf(),
            r == Ok::<usize, Error>(old(self).spec_memory_limit()),
            final(self).spec_memory_limit() == limit,
            final(self).spec_memory_categories() == old(self).spec_memory_categories(),
            final(self).spec_registry() == old(self).spec_registry(),
            final(self).spec_next_object() == old(self).spec_next_object(),
            final(self).spec_registry_used() == old(self).spec_registry_used(),
            final(self).spec_named_size() == old(self).spec_named_size(),
            final(self).spec_modules_size() == old(self).spec_modules_size(),
            final(self).spec_buffers() == old(self).spec_buffers(),
    {
        Ok(self.memory.set_memory_limit(limit))
    }

    /// Charges new allocations to the category `name`.
    pub fn set_memory_category(&mut self, name: &str) -> (r: Result<(), Error>)
        requires
            old(self).wf(),
        ensures
            final(self).wf(),
            final(self).spec_memory_limit() == old(self).spec_memory_limit(),
            !crate::memory::spec_valid_category(name.spec_bytes()) ==> (r matches Err(e)
                && crate::memory::spec_invalid_category_error(e, name@)
                && final(self).spec_memory_categories() == old(self).spec_memory_categories()),
            crate::memory::spec_valid_category(name.spec_bytes()) ==> ({
                let base = crate::memory::spec_with_main(old(self).spec_memory_categories());
                if base.contains(name.spec_bytes()) {
                    r is Ok && final(self).spec_memory_categories() == base
                        && base[final(self).spec_memory_category() as int] == name.spec_bytes()
                } else if base.len() >= crate::memory::MAX_CATEGORIES {
                    r matches Err(e) && crate::memory::spec_too_many_categories_error(e)
                } else {
                    r is Ok && final(self).spec_memory_categories() == base.push(name.spec_bytes())
                        && final(self).spec_memory_category() == base.len()
                }
            }),
            final(self).spec_next_object() == old(self).spec_next_object(),
            final(self).spec_registry_used() == old(self).spec_registry_used(),
            final(self).spec_named_size() == old(self).spec_named_size(),
            final(self).spec_modules_size() == old(self).spec_modules_size(),
            final(self).spec_buffers() == old(self).spec_buffers(),
    {
        self.memory.set_memory_category(name)
    }

    // --- type definitions -------------------------------------------------------

    /// Records host type definitions after their check: the diagnostics of
    /// checking `defs` that lie in the definitions refuse them; otherwise
    /// they are appended (newline-separated) to what was recorded.
    pub fn add_definitions(&mut self, defs: &str, diagnostics: Vec<TypeDiagnostic>) -> (r: Result<(), Error>)
        ensures
            final(self).wf() == old(self).wf(),
            ({
                let def_errors = crate::typecheck::spec_definition_errors(diagnostics@);
                if def_errors.len() > 0 {
                    r matches Err(Error::TypeError(ds)) && ds@ == def_errors
                        && final(self).spec_definitions() == old(self).spec_definitions()
                } else {
                    r is Ok && final(self).spec_definitions() == spec_appended(
                        old(self).spec_definitions(),
                        defs.spec_bytes(),
                    )
                }
            }),
            final(self).spec_next_object() == old(self).spec_next_object(),
            final(self).spec_registry_used() == old(self).spec_registry_used(),
            final(self).spec_named_size() == old(self).spec_named_size(),
            final(self).spec_modules_size() == old(self).spec_modules_size(),
            final(self).spec_buffers() == old(self).spec_buffers(),
    {
        let def_errors = crate::typecheck::definition_errors(diagnostics);
        if def_errors.len() > 0 {
            return Err(Error::TypeError(def_errors));
        }
        if self.definitions.len() > 0 {
            self.definitions.push(10u8);
        }
        let mut extra = crate::string::copy_bytes(defs.as_bytes());
        self.definitions.append(&mut extra);
        Ok(())
    }

    /// The recorded host type definitions.
    pub fn definitions(&self) -> (r: &[u8])
        ensures
            r@ == self.spec_definitions(),
    {
        self.definitions.as_slice()
    }

    /// The definitions that a one-off check with the extra `defs` uses: the
    /// recorded ones, a newline, and `defs`; just `defs` when none is recorded.
    pub fn combined_definitions(&self, defs: &str) -> (r: Vec<u8>)
        ensures
            r@ == spec_appended(self.spec_definitions(), defs.spec_bytes()),
    {
        let mut out = crate::string::copy_bytes(self.definitions.as_slice());
        if out.len() > 0 {
            out.push(10u8);
        }
        let mut extra = crate::string::copy_bytes(defs.as_bytes());
        out.append(&mut extra);
        out
    }
}

/// What the registry stores under a fresh key, it gives back.
pub proof fn law_registry_read_back(before: Map<u64, Value>, after: Map<u64, Value>, slot: u64, value: Value)
    requires
        after == before.insert(slot, value),
    ensures
        after.contains_key(slot),
        after[slot] == value,
        forall|s: u64| s != slot ==> #[trigger] after.get(s) == before.get(s),
{
}

/// A named registry value reads back what was last written under its name.
pub proof fn law_named_registry_read_back(m: Map<Key, Value>, name: Seq<u8>, value: Value)
    ensures
        !(value is Nil) ==> spec_after_set(m, Key::String(name), value)[Key::String(name)] == value,
        value is Nil ==> !spec_after_set(m, Key::String(name), value).contains_key(Key::String(name)),
{
}

} // verus!
