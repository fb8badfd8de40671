//! Serialization of Rust data into Lua values.

use vstd::prelude::*;
use vstd::string::StringSliceAdditionalSpecFns;
use crate::error::Error;
use crate::state::Lua;
use crate::string::create_string;
use crate::table::{Key, Table, key_of, spec_after_set};
use crate::value::{LightUserData, ObjectId, Value};

verus! {

/// Options of serialization.
#[derive(Debug, Clone, Copy, PartialEq, Eq, Structural)]
pub struct Options {
    /// Give sequences the array metatable (so they read back as arrays).
    pub set_array_metatable: bool,
    /// Serialize `None` as the `null` value rather than `nil`.
    pub serialize_none_to_null: bool,
    /// Serialize `()` and unit structs as the `null` value rather than `nil`.
    pub serialize_unit_to_null: bool,
}

impl Options {
    /// The default options: all three enabled.
    pub fn new() -> (r: Options)
        ensures
            r.set_array_metatable && r.serialize_none_to_null && r.serialize_unit_to_null,
    {
        Options { set_array_metatable: true, serialize_none_to_null: true, serialize_unit_to_null: true }
    }

    /// The options with `set_array_metatable` set to `enabled`.
    pub fn set_array_metatable(self, enabled: bool) -> (r: Options)
        ensures
            r == (Options { set_array_metatable: enabled, ..self }),
    {
        Options { set_array_metatable: enabled, ..self }
    }

    /// The options with `serialize_none_to_null` set to `enabled`.
    pub fn serialize_none_to_null(self, enabled: bool) -> (r: Options)
        ensures
            r == (Options { serialize_none_to_null: enabled, ..self }),
    {
        Options { serialize_none_to_null: enabled, ..self }
    }

    /// The options with `serialize_unit_to_null` set to `enabled`.
    pub fn serialize_unit_to_null(self, enabled: bool) -> (r: Options)
        ensures
            r == (Options { serialize_unit_to_null: enabled, ..self }),
    {
        Options { serialize_unit_to_null: enabled, ..self }
    }
}

impl Default for Options {
    fn default() -> (r: Options)
        ensures
            r.set_array_metatable && r.serialize_none_to_null && r.serialize_unit_to_null,
    {
        Options::new()
    }
}

/// The `null` value: the VM's sentinel table `null_id`.
pub open spec fn spec_null(null_id: ObjectId) -> Value {
    Value::Table(null_id)
}

/// The `null` value of the VM whose sentinel table is `null_id`.
pub fn null(null_id: ObjectId) -> (r: Value)
    ensures
        r == spec_null(null_id),
{
    Value::Table(null_id)
}

/// Turns Rust data into Lua values, with options.
#[derive(Debug, Clone, Copy)]
pub struct Serializer {
    pub(crate) options: Options,
    pub(crate) null_id: ObjectId,
}

impl Serializer {
    /// A serializer with the default options, for the VM whose `null` is
    /// the sentinel table `null_id`.
    pub fn new(null_id: ObjectId) -> (r: Serializer)
        ensures
            r.spec_options() == Options::new_spec(),
            r.spec_null_id() == null_id,
    {
        Serializer { options: Options::new(), null_id }
    }

    /// A serializer with `options`.
    pub fn new_with_options(null_id: ObjectId, options: Options) -> (r: Serializer)
        ensures
            r.spec_options() == options,
            r.spec_null_id() == null_id,
    {
        Serializer { options, null_id }
    }

    /// The options.
    pub closed spec fn spec_options(&self) -> Options {
        self.options
    }

    /// The sentinel table that stands for `null`.
    pub closed spec fn spec_null_id(&self) -> ObjectId {
        self.null_id
    }

    /// The options.
    pub fn options(&self) -> (r: Options)
        ensures
            r == self.spec_options(),
    {
        self.options
    }

    /// A boolean.
    pub fn serialize_bool(&self, v: bool) -> (r: Value)
        ensures
            r == Value::Boolean(v),
    {
        Value::Boolean(v)
    }

    /// A signed integer of at most 64 bits.
    pub fn serialize_i64(&self, v: i64) -> (r: Value)
        ensures
            r == Value::Integer(v),
    {
        Value::Integer(v)
    }

    /// An unsigned 64-bit integer: an integer when it fits, otherwise none
    /// (the number is then carried as a float, outside this model).
    pub fn serialize_u64(&self, v: u64) -> (r: Option<Value>)
        ensures
            v <= i64::MAX ==> r == Some(Value::Integer(v as i64)),
            v > i64::MAX ==> r is None,
    {
        if v <= 0x7fff_ffff_ffff_ffff {
            Some(Value::Integer(v as i64))
        } else {
            None
        }
    }

    /// A string.
    pub fn serialize_str(&self, v: &str) -> (r: Value)
        ensures
            r matches Value::String(s) && s@ == v.spec_bytes(),
    {
        Value::String(create_string(v.as_bytes()))
    }

    /// A byte string.
    pub fn serialize_bytes(&self, v: &[u8]) -> (r: Value)
        ensures
            r matches Value::String(s) && s@ == v@,
    {
        Value::String(create_string(v))
    }

    /// `None`: `null` or `nil` by the options.
    pub fn serialize_none(&self) -> (r: Value)
        ensures
            r == if self.spec_options().serialize_none_to_null { spec_null(self.spec_null_id()) } else { Value::Nil },
    {
        if self.options.serialize_none_to_null { null(self.null_id) } else { Value::Nil }
    }

    /// `()` or a unit struct: `null` or `nil` by the options.
    pub fn serialize_unit(&self) -> (r: Value)
        ensures
            r == if self.spec_options().serialize_unit_to_null { spec_null(self.spec_null_id()) } else { Value::Nil },
    {
        if self.options.serialize_unit_to_null { null(self.null_id) } else { Value::Nil }
    }

    /// A unit variant: its name as a string.
    pub fn serialize_unit_variant(&self, variant: &str) -> (r: Value)
        ensures
            r matches Value::String(s) && s@ == variant.spec_bytes(),
    {
        self.serialize_str(variant)
    }

    /// A newtype variant: a table holding the value under the variant's name.
    pub fn serialize_newtype_variant(&self, lua: &mut Lua, variant: &str, value: Value) -> (r: Table)
        requires
            old(lua).spec_next_object() < u64::MAX,
        ensures
            r.wf(),
            !r.spec_readonly(),
            r@ == spec_after_set(Map::empty(), Key::String(variant.spec_bytes()), value),
            r.spec_id().0 == old(lua).spec_next_object(),
            final(lua).spec_next_object() == old(lua).spec_next_object() + 1,
            final(lua).wf() == old(lua).wf(),
    {
        let mut t = lua.create_table();
        let _ = t.raw_set(Value::String(create_string(variant.as_bytes())), value);
        t
    }

    /// Starts a sequence: a new table, with the array metatable when the
    /// options ask for it.
    pub fn serialize_seq(&self, lua: &mut Lua, array_metatable: ObjectId) -> (r: SerializeSeq)
        requires
            old(lua).spec_next_object() < u64::MAX,
        ensures
            r.wf(),
            r.spec_table()@ == Map::<Key, Value>::empty(),
            r.spec_next() == 0,
            r.spec_table().spec_metatable() == if self.spec_options().set_array_metatable {
                Some(array_metatable)
            } else {
                None
            },
            r.spec_table().spec_id().0 == old(lua).spec_next_object(),
            final(lua).spec_next_object() == old(lua).spec_next_object() + 1,
            final(lua).wf() == old(lua).wf(),
    {
        let mut t = lua.create_table();
        if self.options.set_array_metatable {
            let _ = t.set_metatable(Some(array_metatable));
        }
        SerializeSeq { table: t, next: 0 }
    }

    /// Starts a map: a new table.
    pub fn serialize_map(&self, lua: &mut Lua) -> (r: SerializeMap)
        requires
            old(lua).spec_next_object() < u64::MAX,
        ensures
            r.wf(),
            r.spec_table()@ == Map::<Key, Value>::empty(),
            r.spec_key() is None,
            final(lua).spec_next_object() == old(lua).spec_next_object() + 1,
            final(lua).wf() == old(lua).wf(),
    {
        SerializeMap { table: lua.create_table(), key: None }
    }

    /// Starts a struct: a new table.
    pub fn serialize_struct(&self, lua: &mut Lua) -> (r: SerializeStruct)
        requires
            old(lua).spec_next_object() < u64::MAX,
        ensures
            r.wf(),
            r.spec_table()@ == Map::<Key, Value>::empty(),
            final(lua).spec_next_object() == old(lua).spec_next_object() + 1,
            final(lua).wf() == old(lua).wf(),
    {
        SerializeStruct { table: lua.create_table() }
    }

    /// Starts a tuple variant: a new table for its fields.
    pub fn serialize_tuple_variant(&self, lua: &mut Lua, variant: &str) -> (r: SerializeTupleVariant)
        requires
            old(lua).spec_next_object() < u64::MAX,
        ensures
            r.wf(),
            r.spec_table()@ == Map::<Key, Value>::empty(),
            r.spec_variant() == variant.spec_bytes(),
            final(lua).spec_next_object() == old(lua).spec_next_object() + 1,
            final(lua).wf() == old(lua).wf(),
    {
        SerializeTupleVariant { variant: crate::string::copy_bytes(variant.as_bytes()), table: lua.create_table() }
    }

    /// Starts a struct variant: a new table for its fields.
    pub fn serialize_struct_variant(&self, lua: &mut Lua, variant: &str) -> (r: SerializeStructVariant)
        requires
            old(lua).spec_next_object() < u64::MAX,
        ensures
            r.wf(),
            r.spec_table()@ == Map::<Key, Value>::empty(),
            r.spec_variant() == variant.spec_bytes(),
            final(lua).spec_next_object() == old(lua).spec_next_object() + 1,
            final(lua).wf() == old(lua).wf(),
    {
        SerializeStructVariant { variant: crate::string::copy_bytes(variant.as_bytes()), table: lua.create_table() }
    }
}

impl Options {
    /// The default options.
    pub open spec fn new_spec() -> Options {
        Options { set_array_metatable: true, serialize_none_to_null: true, serialize_unit_to_null: true }
    }
}

/// The table contents a sequence serializer builds from `vals`: each value
/// written under its position, counting from 1.
pub open spec fn spec_serialized_seq(vals: Seq<Value>) -> Map<Key, Value>
    decreases vals.len(),
{
    if vals.len() == 0 {
        Map::empty()
    } else {
        spec_after_set(spec_serialized_seq(vals.drop_last()), Key::Integer(vals.len() as i64), vals.last())
    }
}

/// Of values none of which is `nil`, the serialized sequence holds exactly
/// the positions `1..=len`, each with its value.
pub proof fn lemma_serialized_seq(vals: Seq<Value>)
    requires
        vals.len() < i64::MAX,
        forall|j: int| 0 <= j < vals.len() ==> !(#[trigger] vals[j] is Nil),
    ensures
        forall|k: Key| #[trigger] spec_serialized_seq(vals).contains_key(k) <==> (k matches Key::Integer(i) && 1 <= i
            <= vals.len()),
        forall|i: int| 1 <= i <= vals.len() ==> #[trigger] spec_serialized_seq(vals)[Key::Integer(i as i64)] == vals[i - 1],
    decreases vals.len(),
{
    if vals.len() > 0 {
        let n = vals.len() as int;
        let rest = vals.drop_last();
        assert forall|j: int| 0 <= j < rest.len() implies !(#[trigger] rest[j] is Nil) by {
            assert(rest[j] == vals[j]);
        }
        lemma_serialized_seq(rest);
        let last = vals[n - 1];
        assert(!(last is Nil));
        let m = spec_serialized_seq(vals);
        assert(m == spec_serialized_seq(rest).insert(Key::Integer(n as i64), last));
        assert forall|k: Key| #[trigger] m.contains_key(k) <==> (k matches Key::Integer(i) && 1 <= i <= n) by {
            if k == Key::Integer(n as i64) {
            } else {
                assert(m.contains_key(k) == spec_serialized_seq(rest).contains_key(k));
            }
        }
        assert forall|i: int| 1 <= i <= n implies #[trigger] m[Key::Integer(i as i64)] == vals[i - 1] by {
            if i < n {
                assert(rest[i - 1] == vals[i - 1]);
                assert(Key::Integer(i as i64) != Key::Integer(n as i64));
                assert(spec_serialized_seq(rest)[Key::Integer(i as i64)] == rest[i - 1]);
            }
        }
    } else {
        assert(spec_serialized_seq(vals) == Map::<Key, Value>::empty());
    }
}

/// A sequence being serialized: elements go under `1, 2, ...`.
#[derive(Debug)]
pub struct SerializeSeq {
    pub(crate) table: Table,
    pub(crate) next: usize,
}

impl SerializeSeq {
    /// The table is writable and has room.
    pub closed spec fn wf(&self) -> bool {
        &&& self.table.wf()
        &&& !self.table.spec_readonly()
        &&& self.table.spec_size() <= self.next
    }

    /// The table built so far.
    pub closed spec fn spec_table(&self) -> Table {
        self.table
    }

    /// How many elements were serialized.
    pub closed spec fn spec_next(&self) -> usize {
        self.next
    }

    /// Adds the next element.
    pub fn serialize_element(&mut self, value: Value) -> (r: Result<(), Error>)
        requires
            old(self).wf(),
            old(self).spec_next() + 2 < i64::MAX,
            old(self).spec_next() < usize::MAX,
        ensures
            final(self).wf(),
            r is Ok,
            final(self).spec_next() == old(self).spec_next() + 1,
            final(self).spec_table()@ == spec_after_set(
                old(self).spec_table()@,
                Key::Integer((old(self).spec_next() + 1) as i64),
                value,
            ),
            final(self).spec_table().spec_metatable() == old(self).spec_table().spec_metatable(),
            final(self).spec_table().spec_id() == old(self).spec_table().spec_id(),
    {
        let _ = self.table.raw_set(Value::Integer(self.next as i64 + 1), value);
        self.next = self.next + 1;
        Ok(())
    }

    /// The finished table.
    pub fn end(self) -> (r: Table)
        ensures
            r == self.spec_table(),
    {
        self.table
    }
}

/// A map being serialized: a key, then its value.
#[derive(Debug)]
pub struct SerializeMap {
    pub(crate) table: Table,
    pub(crate) key: Option<Value>,
}

impl SerializeMap {
    /// The table is writable.
    pub closed spec fn wf(&self) -> bool {
        &&& self.table.wf()
        &&& !self.table.spec_readonly()
    }

    /// The table built so far.
    pub closed spec fn spec_table(&self) -> Table {
        self.table
    }

    /// The key waiting for its value.
    pub closed spec fn spec_key(&self) -> Option<Value> {
        self.key
    }

    /// Records the next key.
    pub fn serialize_key(&mut self, key: Value)
        ensures
            final(self).spec_key() == Some(key),
            final(self).spec_table() == old(self).spec_table(),
            final(self).wf() == old(self).wf(),
    {
        self.key = Some(key);
    }

    /// Stores `value` under the recorded key; a key must have been recorded,
    /// and it must be a valid table key.
    pub fn serialize_value(&mut self, value: Value) -> (r: Result<(), Error>)
        requires
            old(self).wf(),
            old(self).spec_key() matches Some(k) && key_of(k) is Some,
            old(self).spec_table().spec_size() + 1 < i64::MAX,
        ensures
            final(self).wf(),
            r is Ok,
            final(self).spec_key() is None,
            final(self).spec_table()@ == spec_after_set(
                old(self).spec_table()@,
                key_of(old(self).spec_key()->Some_0)->Some_0,
                value,
            ),
            final(self).spec_table().spec_size() <= old(self).spec_table().spec_size() + 1,
    {
        let mut k: Option<Value> = None;
        core::mem::swap(&mut k, &mut self.key);
        match k {
            Some(key) => self.table.raw_set(key, value),
            None => Ok(()),
        }
    }

    /// The finished table.
    pub fn end(self) -> (r: Table)
        ensures
            r == self.spec_table(),
    {
        self.table
    }
}

/// A struct being serialized: fields under their names.
#[derive(Debug)]
pub struct SerializeStruct {
    pub(crate) table: Table,
}

impl SerializeStruct {
    /// The table is writable.
    pub closed spec fn wf(&self) -> bool {
        &&& self.table.wf()
        &&& !self.table.spec_readonly()
    }

    /// The table built so far.
    pub closed spec fn spec_table(&self) -> Table {
        self.table
    }

    /// Stores a field under its name.
    pub fn serialize_field(&mut self, key: &str, value: Value) -> (r: Result<(), Error>)
        requires
            old(self).wf(),
            old(self).spec_table().spec_size() + 1 < i64::MAX,
        ensures
            final(self).wf(),
            r is Ok,
            final(self).spec_table()@ == spec_after_set(old(self).spec_table()@, Key::String(key.spec_bytes()), value),
            final(self).spec_table().spec_size() <= old(self).spec_table().spec_size() + 1,
    {
        self.table.raw_set(Value::String(create_string(key.as_bytes())), value)
    }

    /// The finished table.
    pub fn end(self) -> (r: Table)
        ensures
            r == self.spec_table(),
    {
        self.table
    }
}

/// A tuple variant being serialized: fields appended in order.
#[derive(Debug)]
pub struct SerializeTupleVariant {
    pub(crate) variant: Vec<u8>,
    pub(crate) table: Table,
}

impl SerializeTupleVariant {
    /// The table is writable.
    pub closed spec fn wf(&self) -> bool {
        &&& self.table.wf()
        &&& !self.table.spec_readonly()
    }

    /// The table built so far.
    pub closed spec fn spec_table(&self) -> Table {
        self.table
    }

    /// The variant's name.
    pub closed spec fn spec_variant(&self) -> Seq<u8> {
        self.variant@
    }

    /// Appends a field.
    pub fn serialize_field(&mut self, value: Value) -> (r: Result<(), Error>)
        requires
            old(self).wf(),
            old(self).spec_table().spec_size() + 1 < i64::MAX,
        ensures
            final(self).wf(),
            r is Ok,
            final(self).spec_table()@ == spec_after_set(
                old(self).spec_table()@,
                Key::Integer((old(self).spec_table().spec_raw_len() + 1) as i64),
                value,
            ),
            final(self).spec_variant() == old(self).spec_variant(),
    {
        self.table.raw_push(value)
    }

    /// The finished value: a new table holding the fields' table under the
    /// variant's name. Returns the outer table and the fields' table.
    pub fn end(self, lua: &mut Lua) -> (r: (Table, Table))
        requires
            old(lua).spec_next_object() < u64::MAX,
        ensures
            r.1 == self.spec_table(),
            r.0.wf(),
            r.0@ == spec_after_set(Map::empty(), Key::String(self.spec_variant()), Value::Table(self.spec_table().spec_id())),
            final(lua).spec_next_object() == old(lua).spec_next_object() + 1,
            final(lua).wf() == old(lua).wf(),
    {
        let mut outer = lua.create_table();
        let inner_id = self.table.to_pointer();
        let _ = outer.raw_set(Value::String(crate::string::string_from_vec(self.variant)), Value::Table(inner_id));
        (outer, self.table)
    }
}

/// A struct variant being serialized: fields under their names.
#[derive(Debug)]
pub struct SerializeStructVariant {
    pub(crate) variant: Vec<u8>,
    pub(crate) table: Table,
}

impl SerializeStructVariant {
    /// The table is writable.
    pub closed spec fn wf(&self) -> bool {
        &&& self.table.wf()
        &&& !self.table.spec_readonly()
    }

    /// The table built so far.
    pub closed spec fn spec_table(&self) -> Table {
        self.table
    }

    /// The variant's name.
    pub closed spec fn spec_variant(&self) -> Seq<u8> {
        self.variant@
    }

    /// Stores a field under its name.
    pub fn serialize_field(&mut self, key: &str, value: Value) -> (r: Result<(), Error>)
        requires
            old(self).wf(),
            old(self).spec_table().spec_size() + 1 < i64::MAX,
        ensures
            final(self).wf(),
            r is Ok,
            final(self).spec_table()@ == spec_after_set(old(self).spec_table()@, Key::String(key.spec_bytes()), value),
            final(self).spec_variant() == old(self).spec_variant(),
    {
        self.table.raw_set(Value::String(create_string(key.as_bytes())), value)
    }

    /// The finished value: a new table holding the fields' table under the
    /// variant's name. Returns the outer table and the fields' table.
    pub fn end(self, lua: &mut Lua) -> (r: (Table, Table))
        requires
            old(lua).spec_next_object() < u64::MAX,
        ensures
            r.1 == self.spec_table(),
            r.0.wf(),
            r.0@ == spec_after_set(Map::empty(), Key::String(self.spec_variant()), Value::Table(self.spec_table().spec_id())),
            final(lua).spec_next_object() == old(lua).spec_next_object() + 1,
            final(lua).wf() == old(lua).wf(),
    {
        let mut outer = lua.create_table();
        let inner_id = self.table.to_pointer();
        let _ = outer.raw_set(Value::String(crate::string::string_from_vec(self.variant)), Value::Table(inner_id));
        (outer, self.table)
    }
}

} // verus!
