//! Reading Lua values back into Rust data: the options and the rules that
//! decide what is skipped, how a table is read, and in which order keys go.

use vstd::prelude::*;
use core::cmp::Ordering;
use crate::serialize::ser::spec_null;
use crate::string::{lex_compare, ordering_of, spec_lex_compare};
use crate::table::{Key, Table, key_of, spec_distinct_keys, spec_entries_of};
use std::collections::VecDeque;
use vstd::multiset::Multiset;
use crate::value::{ObjectId, Value, spec_lua_type_name};
use crate::error::{Error, concat3, spec_decimal};
use crate::conversion::{spec_from_error, spec_string_from, string_from_lua};
use crate::string::{copy_bytes, spec_is_utf8_error};
use vstd::utf8::{valid_utf8, decode_utf8, encode_utf8};
use crate::serialize::messages::{
    Unexpected, invalid_length_text, invalid_type_text, invalid_value_text, spec_invalid_length_text,
    spec_invalid_type_text, spec_invalid_value_text,
};

verus! {

/// Options of deserialization.
#[derive(Debug, Clone, Copy, PartialEq, Eq, Structural)]
pub struct Options {
    /// Refuse functions, threads, userdata and errors (otherwise skip them).
    pub deny_unsupported_types: bool,
    /// Refuse a table met again inside itself (otherwise skip it).
    pub deny_recursive_tables: bool,
    /// Visit map keys in sorted order.
    pub sort_keys: bool,
    /// Read an empty table as an empty array.
    pub encode_empty_tables_as_array: bool,
    /// Read a table whose keys are all positive integers as an array when it
    /// is dense enough.
    pub detect_mixed_tables: bool,
}

impl Options {
    /// The default options: refuse unsupported types and recursive tables.
    pub open spec fn new_spec() -> Options {
        Options {
            deny_unsupported_types: true,
            deny_recursive_tables: true,
            sort_keys: false,
            encode_empty_tables_as_array: false,
            detect_mixed_tables: false,
        }
    }

    /// The default options: refuse unsupported types and recursive tables.
    pub fn new() -> (r: Options)
        ensures
            r == Options::new_spec(),
    {
        Options {
            deny_unsupported_types: true,
            deny_recursive_tables: true,
            sort_keys: false,
            encode_empty_tables_as_array: false,
            detect_mixed_tables: false,
        }
    }

    /// The options with `deny_unsupported_types` set to `enabled`.
    pub fn deny_unsupported_types(self, enabled: bool) -> (r: Options)
        ensures
            r == (Options { deny_unsupported_types: enabled, ..self }),
    {
        Options { deny_unsupported_types: enabled, ..self }
    }

    /// The options with `deny_recursive_tables` set to `enabled`.
    pub fn deny_recursive_tables(self, enabled: bool) -> (r: Options)
        ensures
            r == (Options { deny_recursive_tables: enabled, ..self }),
    {
        Options { deny_recursive_tables: enabled, ..self }
    }

    /// The options with `sort_keys` set to `enabled`.
    pub fn sort_keys(self, enabled: bool) -> (r: Options)
        ensures
            r == (Options { sort_keys: enabled, ..self }),
    {
        Options { sort_keys: enabled, ..self }
    }

    /// The options with `encode_empty_tables_as_array` set to `enabled`.
    pub fn encode_empty_tables_as_array(self, enabled: bool) -> (r: Options)
        ensures
            r == (Options { encode_empty_tables_as_array: enabled, ..self }),
    {
        Options { encode_empty_tables_as_array: enabled, ..self }
    }

    /// The options with `detect_mixed_tables` set to `enabled`.
    pub fn detect_mixed_tables(self, enabled: bool) -> (r: Options)
        ensures
            r == (Options { detect_mixed_tables: enabled, ..self }),
    {
        Options { detect_mixed_tables: enabled, ..self }
    }
}

impl Default for Options {
    fn default() -> (r: Options)
        ensures
            r.deny_unsupported_types && r.deny_recursive_tables && !r.sort_keys
                && !r.encode_empty_tables_as_array && !r.detect_mixed_tables,
    {
        Options::new()
    }
}

/// Reads one Lua value into Rust data through serde: the value, the
/// options, the tables being read around it (a table met again inside
/// itself is recursive) and the VM's `null` table.
#[derive(Debug)]
pub struct Deserializer {
    pub(crate) value: Value,
    pub(crate) options: Options,
    pub(crate) visited: Vec<ObjectId>,
    pub(crate) null_id: ObjectId,
}

/// A copy of a list of identities.
pub(crate) fn copy_ids(ids: &Vec<ObjectId>) -> (r: Vec<ObjectId>)
    ensures
        r@ == ids@,
{
    let mut out: Vec<ObjectId> = Vec::new();
    let mut i: usize = 0;
    while i < ids.len()
        invariant
            i <= ids@.len(),
            out@ == ids@.subrange(0, i as int),
        decreases ids.len() - i,
    {
        out.push(ids[i]);
        i += 1;
    }
    assert(out@ == ids@.subrange(0, ids@.len() as int));
    out
}

impl Deserializer {
    /// A reader of `value` with the default options, for the VM whose `null`
    /// is the table `null_id`.
    pub fn new(value: Value, null_id: ObjectId) -> (r: Deserializer)
        ensures
            r.spec_value() == value,
            r.spec_options() == Options::new_spec(),
            r.spec_visited() == Seq::<ObjectId>::empty(),
            r.spec_null_id() == null_id,
    {
        Deserializer { value, options: Options::new(), visited: Vec::new(), null_id }
    }

    /// A reader of `value` with `options`.
    pub fn new_with_options(value: Value, options: Options, null_id: ObjectId) -> (r: Deserializer)
        ensures
            r.spec_value() == value,
            r.spec_options() == options,
            r.spec_visited() == Seq::<ObjectId>::empty(),
            r.spec_null_id() == null_id,
    {
        Deserializer { value, options, visited: Vec::new(), null_id }
    }

    /// A reader of `value` inside the tables `visited`.
    pub(crate) fn from_parts(value: Value, options: Options, visited: Vec<ObjectId>, null_id: ObjectId) -> (r: Deserializer)
        ensures
            r.spec_value() == value,
            r.spec_options() == options,
            r.spec_visited() == visited@,
            r.spec_null_id() == null_id,
    {
        Deserializer { value, options, visited, null_id }
    }

    /// Takes the value out of the reader.
    pub(crate) fn into_value(self) -> (r: Value)
        ensures
            r == self.spec_value(),
    {
        self.value
    }

    /// The options.
    pub(crate) fn options(&self) -> (r: Options)
        ensures
            r == self.spec_options(),
    {
        self.options
    }

    /// The `null` table.
    pub(crate) fn null_id(&self) -> (r: ObjectId)
        ensures
            r == self.spec_null_id(),
    {
        self.null_id
    }

    /// A copy of the tables being read around the value.
    pub(crate) fn visited_ids(&self) -> (r: Vec<ObjectId>)
        ensures
            r@ == self.spec_visited(),
    {
        copy_ids(&self.visited)
    }

    /// The value read.
    pub closed spec fn spec_value(&self) -> Value {
        self.value
    }

    /// The options.
    pub closed spec fn spec_options(&self) -> Options {
        self.options
    }

    /// The tables being read around the value.
    pub closed spec fn spec_visited(&self) -> Seq<ObjectId> {
        self.visited@
    }

    /// The `null` table.
    pub closed spec fn spec_null_id(&self) -> ObjectId {
        self.null_id
    }

    /// The value read.
    pub fn value(&self) -> (r: &Value)
        ensures
            *r == self.spec_value(),
    {
        &self.value
    }

    /// Whether an `Option` reads as `Some`: every value but `nil` and `null`.
    pub fn deserialize_option(&self) -> (r: bool)
        ensures
            r == !(self.spec_value() is Nil || self.spec_value() == spec_null(self.spec_null_id())),
    {
        !(self.value.is_nil() || is_null(&self.value, self.null_id))
    }

    /// Starts reading a table as a sequence of its raw length: the slots
    /// `1..=len` in order. Any other value is refused as not a table.
    pub fn deserialize_seq(&self, table: Option<&Table>) -> (r: Result<SeqReader, Error>)
        requires
            self.spec_value() matches Value::Table(id) ==> (table matches Some(t) && t.wf() && t.spec_id() == id),
        ensures
            self.spec_value() matches Value::Table(id) ==> (r matches Ok(s) && table matches Some(t) && s.wf()
                && s.spec_table() == id && s.spec_index() == 1 && s.spec_len() == t.spec_raw_len()
                && s.spec_options() == self.spec_options() && s.spec_visited() == self.spec_visited().push(id)
                && s.spec_null_id() == self.spec_null_id()),
            !(self.spec_value() is Table) ==> (r matches Err(Error::DeserializeError(m)) && m@ == spec_invalid_type_text(
                Unexpected::Other(spec_lua_type_name(self.spec_value())),
                "table"@,
            )),
    {
        match (&self.value, table) {
            (Value::Table(id), Some(t)) => {
                let len = t.raw_len();
                Ok(self.seq_reader(*id, len as u64))
            },
            _ => Err(Error::DeserializeError(invalid_type_text(Unexpected::Other(self.value.lua_type_name()), "table"))),
        }
    }

    /// What reading any value gives (see [`Deserializer::deserialize_any`]).
    pub open spec fn spec_reads_any(&self, table: Option<&Table>, array_metatable: ObjectId, r: Result<AnyRead, Error>) -> bool {
        match self.spec_value() {
            Value::Nil => r matches Ok(AnyRead::Unit),
            Value::Boolean(b) => r matches Ok(AnyRead::Bool(x)) && x == b,
            Value::Integer(i) => r matches Ok(AnyRead::Integer(x)) && x == i,
            Value::String(s) => if valid_utf8(s@) {
                r matches Ok(AnyRead::Str(t)) && t@ == decode_utf8(s@)
            } else {
                r matches Ok(AnyRead::Bytes(b)) && b@ == s@
            },
            Value::Table(id) => if id == self.spec_null_id() {
                r matches Ok(AnyRead::Absent)
            } else {
                table matches Some(t) && match spec_encode_as_array(*t, self.spec_options(), array_metatable) {
                    Some(n) => r matches Ok(AnyRead::Sequence(s)) && s.wf() && s.spec_table() == id && s.spec_index() == 1
                        && s.spec_len() == n && s.spec_options() == self.spec_options()
                        && s.spec_visited() == self.spec_visited().push(id) && s.spec_null_id() == self.spec_null_id(),
                    None => r matches Ok(AnyRead::Mapping(m)) && self.spec_map_reader(m, id, *t),
                }
            },
            Value::Buffer(id) => r matches Ok(AnyRead::BufferBytes(x)) && x == id,
            _ => if self.spec_options().deny_unsupported_types {
                r matches Err(Error::DeserializeError(m)) && m@ == "unsupported value type `"@ + spec_lua_type_name(
                    self.spec_value(),
                )@ + "`"@
            } else {
                r matches Ok(AnyRead::Unit)
            },
        }
    }

    /// Reads any value: `nil` as unit, booleans, integers, strings (as text
    /// when UTF-8, else as bytes), `null` as no value, a table as a sequence
    /// or a map (see [`spec_encode_as_array`]), a buffer as its bytes; a
    /// function, thread, light userdata, userdata or error is refused, or
    /// read as unit when such values are not refused. `table` is the table
    /// read, `array_metatable` the metatable that marks arrays.
    pub fn deserialize_any(&self, table: Option<&Table>, array_metatable: ObjectId) -> (r: Result<AnyRead, Error>)
        requires
            self.spec_value() matches Value::Table(id) ==> (id != self.spec_null_id() ==> (table matches Some(t) && t.wf()
                && t.spec_id() == id)),
        ensures
            self.spec_reads_any(table, array_metatable, r),
    {
        match &self.value {
            Value::Nil => Ok(AnyRead::Unit),
            Value::Boolean(b) => Ok(AnyRead::Bool(*b)),
            Value::Integer(i) => Ok(AnyRead::Integer(*i)),
            Value::String(s) => match s.to_str() {
                Ok(text) => Ok(AnyRead::Str(text)),
                Err(_) => Ok(AnyRead::Bytes(copy_bytes(s.as_bytes()))),
            },
            Value::Table(id) => {
                if id.0 == self.null_id.0 {
                    return Ok(AnyRead::Absent);
                }
                match table {
                    Some(t) => match encode_as_array(t, self.options, array_metatable) {
                        Some(n) => {
                            proof {
                                lemma_encoded_len_fits(*t, self.options, array_metatable);
                            }
                            Ok(AnyRead::Sequence(self.seq_reader(*id, n)))
                        },
                        None => Ok(AnyRead::Mapping(self.map_reader(*id, t))),
                    },
                    None => Ok(AnyRead::Unit),
                }
            },
            Value::Buffer(id) => Ok(AnyRead::BufferBytes(*id)),
            _ => {
                if self.options.deny_unsupported_types {
                    Err(Error::DeserializeError(concat3("unsupported value type `", self.value.lua_type_name(), "`")))
                } else {
                    Ok(AnyRead::Unit)
                }
            },
        }
    }

    /// Reads the unit value: `null` is unit, anything else is read as by
    /// [`Deserializer::deserialize_any`].
    pub fn deserialize_unit(&self, table: Option<&Table>, array_metatable: ObjectId) -> (r: Result<AnyRead, Error>)
        requires
            self.spec_value() matches Value::Table(id) ==> (id != self.spec_null_id() ==> (table matches Some(t) && t.wf()
                && t.spec_id() == id)),
        ensures
            self.spec_value() == spec_null(self.spec_null_id()) ==> r matches Ok(AnyRead::Unit),
            self.spec_value() != spec_null(self.spec_null_id()) ==> self.spec_reads_any(table, array_metatable, r),
    {
        if is_null(&self.value, self.null_id) {
            Ok(AnyRead::Unit)
        } else {
            self.deserialize_any(table, array_metatable)
        }
    }

    /// The error of a table that does not hold exactly one entry.
    pub open spec fn spec_single_key_error(e: Error) -> bool {
        e matches Error::DeserializeError(m) && m@ == spec_invalid_value_text(Unexpected::Mapping, "map with a single key"@)
    }

    /// What reading an enum gives (see [`Deserializer::deserialize_enum`]):
    /// of a table with one entry, the key's text names the variant and the
    /// value is its data (unless the value is skipped or refused); a table
    /// with two or more entries fails, with the single-key error or with the
    /// refusal of a key that has no text.
    pub open spec fn spec_reads_enum(&self, table: Option<&Table>, r: Result<EnumRead, Error>) -> bool {
        match self.spec_value() {
            Value::String(s) => if valid_utf8(s@) {
                r matches Ok(er) && er.spec_variant() == decode_utf8(s@) && er.spec_data() is None
            } else {
                r matches Err(e) && spec_is_utf8_error(e, s@)
            },
            Value::Table(id) => table matches Some(t) && if t.spec_size() == 0 {
                r matches Err(e) && Self::spec_single_key_error(e)
            } else if t.spec_size() >= 2 {
                r matches Err(e) && (Self::spec_single_key_error(e) || exists|k: Key| #[trigger] t@.contains_key(k)
                    && spec_key_text(k) is None && spec_key_refusal(k, e))
            } else {
                forall|k: Key| #[trigger] t@.contains_key(k) ==> match spec_key_text(k) {
                    None => r matches Err(e) && spec_key_refusal(k, e),
                    Some(name) => match spec_skip(t@[k], self.spec_options(), self.spec_visited().push(id), self.spec_null_id()) {
                        Err(m) => r matches Err(Error::DeserializeError(x)) && x@ == m@,
                        Ok(true) => r matches Err(Error::DeserializeError(x)) && x@ == "bad enum value"@,
                        Ok(false) => r matches Ok(er) && er.spec_variant() == name && (er.spec_data() matches Some(d)
                            && crate::value::spec_same_value(d.spec_value(), t@[k]) && d.spec_options() == self.spec_options()
                            && d.spec_visited() == self.spec_visited().push(id) && d.spec_null_id() == self.spec_null_id()),
                    },
                }
            },
            _ => r matches Err(Error::DeserializeError(m)) && m@ == "bad enum value"@,
        }
    }

    /// Reads an enum: a string names a unit variant; a table with a single
    /// entry names the variant by its key and holds its data; anything else
    /// is refused.
    pub fn deserialize_enum(&self, table: Option<&Table>) -> (r: Result<EnumRead, Error>)
        requires
            self.spec_value() matches Value::Table(id) ==> (table matches Some(t) && t.wf() && t.spec_id() == id),
        ensures
            self.spec_reads_enum(table, r),
    {
        match (&self.value, table) {
            (Value::Table(id), Some(t)) => {
                let mut entries = t.pairs();
                if entries.len() == 0 {
                    return Err(Error::DeserializeError(invalid_value_text(Unexpected::Mapping, "map with a single key")));
                }
                let ghost all = entries@;
                let (key, value) = entries.remove(0);
                assert(all[0] == (key, value));
                let ghost k0 = key_of(key)->Some_0;
                let converted = string_from_lua(key);
                proof {
                    lemma_key_text(all[0].0, converted);
                }
                let variant = match converted {
                    Ok(v) => v,
                    Err(e) => {
                        return Err(e);
                    },
                };
                if entries.len() > 0 {
                    return Err(Error::DeserializeError(invalid_value_text(Unexpected::Mapping, "map with a single key")));
                }
                proof {
                    assert forall|k: Key| #[trigger] t@.contains_key(k) implies k == k0 by {
                        let i = choose|i: int| 0 <= i < all.len() && key_of(#[trigger] all[i].0) == Some(k);
                        assert(i == 0);
                    }
                    lemma_skip_same(value, t@[k0], self.options, self.visited@.push(*id), self.null_id);
                }
                let mut visited = copy_ids(&self.visited);
                visited.push(*id);
                match check_value_for_skip(&value, self.options, &visited, self.null_id) {
                    Err(m) => Err(Error::DeserializeError(m.to_owned())),
                    Ok(true) => Err(Error::DeserializeError("bad enum value".to_owned())),
                    Ok(false) => Ok(EnumRead {
                        variant,
                        value: Some(Deserializer { value, options: self.options, visited, null_id: self.null_id }),
                    }),
                }
            },
            (Value::String(s), _) => match s.to_str() {
                Ok(v) => Ok(EnumRead { variant: v, value: None }),
                Err(e) => Err(e),
            },
            _ => Err(Error::DeserializeError("bad enum value".to_owned())),
        }
    }

    /// Starts reading a table as a map of its entries (sorted by key when
    /// keys are sorted). Any other value is refused as not a table.
    pub fn deserialize_map(&self, table: Option<&Table>) -> (r: Result<MapReader, Error>)
        requires
            self.spec_value() matches Value::Table(id) ==> (table matches Some(t) && t.wf() && t.spec_id() == id),
        ensures
            self.spec_value() matches Value::Table(id) ==> (r matches Ok(m) && table matches Some(t)
                && self.spec_map_reader(m, id, *t)),
            !(self.spec_value() is Table) ==> (r matches Err(Error::DeserializeError(m)) && m@ == spec_invalid_type_text(
                Unexpected::Other(spec_lua_type_name(self.spec_value())),
                "table"@,
            )),
    {
        match (&self.value, table) {
            (Value::Table(id), Some(t)) => Ok(self.map_reader(*id, t)),
            _ => Err(Error::DeserializeError(invalid_type_text(Unexpected::Other(self.value.lua_type_name()), "table"))),
        }
    }

    /// `m` starts reading the table `t`, whose identity is `id`, as a map.
    pub open spec fn spec_map_reader(&self, m: MapReader, id: ObjectId, t: Table) -> bool {
        spec_map_start(m, id, t, self.spec_options(), self.spec_visited(), self.spec_null_id())
    }

    /// A reader of the entries of the table `t` (identity `id`), with `id`
    /// among the tables being read.
    pub(crate) fn map_reader(&self, id: ObjectId, t: &Table) -> (r: MapReader)
        requires
            t.wf(),
        ensures
            self.spec_map_reader(r, id, *t),
    {
        let entries = t.pairs();
        let ghost unsorted = entries@;
        assert(spec_entries_of(*t, unsorted));
        let ordered = if self.options.sort_keys {
            let sorted = sort_entries(entries, self.null_id);
            assert(spec_entries_of(*t, unsorted) && sorted@.to_multiset() == unsorted.to_multiset());
            sorted
        } else {
            entries
        };
        let mut visited = copy_ids(&self.visited);
        visited.push(id);
        let count = ordered.len();
        let pairs = crate::table::into_queue(ordered);
        assert(pairs@.len() == count);
        MapReader { table: id, pairs, value: None, processed: 0, options: self.options, visited, null_id: self.null_id }
    }

    /// A reader of the slots `1..=len` of the table `id`, with `id` among
    /// the tables being read.
    pub(crate) fn seq_reader(&self, id: ObjectId, len: u64) -> (r: SeqReader)
        requires
            len <= i64::MAX,
        ensures
            r.wf(),
            r.spec_table() == id,
            r.spec_index() == 1,
            r.spec_len() == len,
            r.spec_options() == self.spec_options(),
            r.spec_visited() == self.spec_visited().push(id),
            r.spec_null_id() == self.spec_null_id(),
    {
        let mut visited = copy_ids(&self.visited);
        visited.push(id);
        SeqReader { table: id, index: 1, len, options: self.options, visited, null_id: self.null_id }
    }
}

/// What reading any value gives (serde's `deserialize_any`).
#[derive(Debug)]
pub enum AnyRead {
    /// The unit value.
    Unit,
    /// A boolean.
    Bool(bool),
    /// An integer.
    Integer(i64),
    /// A string that is UTF-8 text, as text.
    Str(String),
    /// A string that is not UTF-8, as bytes.
    Bytes(Vec<u8>),
    /// `null`: no value.
    Absent,
    /// A table read as a sequence.
    Sequence(SeqReader),
    /// A table read as a map.
    Mapping(MapReader),
    /// The bytes of a buffer.
    BufferBytes(ObjectId),
}

/// The text of a key read as the name of an enum variant: a UTF-8 string's
/// text or an integer's decimal text; none for any other key.
pub open spec fn spec_key_text(k: Key) -> Option<Seq<char>> {
    match k {
        Key::String(b) => if valid_utf8(b) {
            Some(decode_utf8(b))
        } else {
            None
        },
        Key::Integer(i) => Some(spec_decimal(i as int)),
        _ => None,
    }
}

/// The Lua type name of the values a key stands for.
pub open spec fn spec_key_type_name(k: Key) -> &'static str {
    match k {
        Key::Boolean(_) => "boolean",
        Key::LightUserData(_) => "lightuserdata",
        Key::Integer(_) => "integer",
        Key::String(_) => "string",
        Key::Table(_) => "table",
        Key::Function(_) => "function",
        Key::Thread(_) => "thread",
        Key::UserData(_) => "userdata",
        Key::Buffer(_) => "buffer",
    }
}

/// The error of a key without a text: a string that is not UTF-8 fails to
/// decode, any other key is refused as not convertible to a `String`.
pub open spec fn spec_key_refusal(k: Key, e: Error) -> bool {
    match k {
        Key::String(b) => spec_is_utf8_error(e, b),
        _ => spec_from_error(e, spec_key_type_name(k), "String"@, None),
    }
}

/// Converting a key's value to a `String` gives the key's text, or fails
/// with the key's refusal.
proof fn lemma_key_text(v: Value, r: Result<String, Error>)
    requires
        key_of(v) is Some,
        spec_string_from(v, r),
    ensures
        spec_key_text(key_of(v)->Some_0) matches Some(t) ==> (r matches Ok(s) && s@ == t),
        spec_key_text(key_of(v)->Some_0) is None ==> (r matches Err(e) && spec_key_refusal(key_of(v)->Some_0, e)),
{
}

/// How an enum is read: the name of the variant and, for a variant with
/// data, a reader of the data.
#[derive(Debug)]
pub struct EnumRead {
    pub(crate) variant: String,
    pub(crate) value: Option<Deserializer>,
}

impl EnumRead {
    /// The name of the variant.
    pub closed spec fn spec_variant(&self) -> Seq<char> {
        self.variant@
    }

    /// The reader of the variant's data, if it has any.
    pub closed spec fn spec_data(&self) -> Option<Deserializer> {
        self.value
    }

    /// The name of the variant.
    pub fn variant(&self) -> (r: &str)
        ensures
            r@ == self.spec_variant(),
    {
        self.variant.as_str()
    }

    /// The value of the variant's data, if it has any.
    pub fn data_value(&self) -> (r: Option<&Value>)
        ensures
            self.spec_data() matches Some(d) ==> r == Some(&d.spec_value()),
            self.spec_data() is None ==> r is None,
    {
        match &self.value {
            Some(d) => Some(d.value()),
            None => None,
        }
    }

    /// Reads a unit variant: an error when the variant has data.
    pub fn unit_variant(self) -> (r: Result<(), Error>)
        ensures
            self.spec_data() is None ==> r is Ok,
            self.spec_data() is Some ==> (r matches Err(Error::DeserializeError(m)) && m@ == spec_invalid_type_text(
                Unexpected::NewtypeVariant,
                "unit variant"@,
            )),
    {
        match self.value {
            Some(_) => Err(Error::DeserializeError(invalid_type_text(Unexpected::NewtypeVariant, "unit variant"))),
            None => Ok(()),
        }
    }

    /// Reads a newtype variant: the reader of its data; an error when the
    /// variant has none.
    pub fn newtype_variant(self) -> (r: Result<Deserializer, Error>)
        ensures
            self.spec_data() matches Some(d) ==> r == Ok::<Deserializer, Error>(d),
            self.spec_data() is None ==> (r matches Err(Error::DeserializeError(m)) && m@ == spec_invalid_type_text(
                Unexpected::UnitVariant,
                "newtype variant"@,
            )),
    {
        match self.value {
            Some(d) => Ok(d),
            None => Err(Error::DeserializeError(invalid_type_text(Unexpected::UnitVariant, "newtype variant"))),
        }
    }

    /// Reads a tuple variant: its data read as a sequence; an error when the
    /// variant has no data.
    pub fn tuple_variant(self, table: Option<&Table>) -> (r: Result<SeqReader, Error>)
        requires
            self.spec_data() matches Some(d) && d.spec_value() matches Value::Table(id) ==> (table matches Some(t)
                && t.wf() && t.spec_id() == id),
        ensures
            self.spec_data() matches Some(d) && d.spec_value() matches Value::Table(id) ==> (r matches Ok(s)
                && table matches Some(t) && s.wf() && s.spec_table() == id && s.spec_index() == 1 && s.spec_len()
                == t.spec_raw_len() && s.spec_options() == d.spec_options() && s.spec_visited() == d.spec_visited().push(id)
                && s.spec_null_id() == d.spec_null_id()),
            self.spec_data() matches Some(d) ==> (!(d.spec_value() is Table) ==> (r matches Err(
                Error::DeserializeError(m),
            ) && m@ == spec_invalid_type_text(Unexpected::Other(spec_lua_type_name(d.spec_value())), "table"@))),
            self.spec_data() is None ==> (r matches Err(Error::DeserializeError(m)) && m@ == spec_invalid_type_text(
                Unexpected::UnitVariant,
                "tuple variant"@,
            )),
    {
        match self.value {
            Some(d) => d.deserialize_seq(table),
            None => Err(Error::DeserializeError(invalid_type_text(Unexpected::UnitVariant, "tuple variant"))),
        }
    }

    /// Reads a struct variant: its data read as a map; an error when the
    /// variant has no data.
    pub fn struct_variant(self, table: Option<&Table>) -> (r: Result<MapReader, Error>)
        requires
            self.spec_data() matches Some(d) && d.spec_value() matches Value::Table(id) ==> (table matches Some(t)
                && t.wf() && t.spec_id() == id),
        ensures
            self.spec_data() matches Some(d) && d.spec_value() matches Value::Table(id) ==> (r matches Ok(m)
                && table matches Some(t) && d.spec_map_reader(m, id, *t)),
            self.spec_data() matches Some(d) ==> (!(d.spec_value() is Table) ==> (r matches Err(
                Error::DeserializeError(m),
            ) && m@ == spec_invalid_type_text(Unexpected::Other(spec_lua_type_name(d.spec_value())), "table"@))),
            self.spec_data() is None ==> (r matches Err(Error::DeserializeError(m)) && m@ == spec_invalid_type_text(
                Unexpected::UnitVariant,
                "struct variant"@,
            )),
    {
        match self.value {
            Some(d) => d.deserialize_map(table),
            None => Err(Error::DeserializeError(invalid_type_text(Unexpected::UnitVariant, "struct variant"))),
        }
    }
}

/// The length of a table read as an array fits a Lua integer.
pub(crate) proof fn lemma_encoded_len_fits(t: Table, options: Options, array_metatable: ObjectId)
    requires
        t.wf(),
        spec_encode_as_array(t, options, array_metatable) is Some,
    ensures
        spec_encode_as_array(t, options, array_metatable)->Some_0 <= i64::MAX,
{
    if options.detect_mixed_tables {
        let m = choose|m: u64| spec_is_max_index(t@, m);
        assert(spec_is_max_index(t@, m));
    } else {
        t.lemma_raw_len_bound();
    }
}

/// Where reading stops: at the end (the position reached), at an item that
/// is read, or at an item that is refused (with the reason).
pub enum ReadStep {
    /// Nothing more to read; the position reached.
    End(int),
    /// The item at this position is read.
    Found(int),
    /// The item at this position is refused, for this reason.
    Refused(int, &'static str),
}

/// The value in the array slot `i` of a table as a raw read sees it: `nil`
/// when the slot is empty.
pub open spec fn spec_slot(t: Table, i: int) -> Value {
    match t@.get(Key::Integer(i as i64)) {
        Some(v) => v,
        None => Value::Nil,
    }
}

/// Where reading the slots `i..=len` of a table stops: skipped slots are
/// passed over.
pub open spec fn spec_seq_step(
    t: Table,
    i: int,
    len: int,
    options: Options,
    visited: Seq<ObjectId>,
    null_id: ObjectId,
) -> ReadStep
    decreases len + 1 - i,
{
    if i > len {
        ReadStep::End(i)
    } else {
        match spec_skip(spec_slot(t, i), options, visited, null_id) {
            Err(m) => ReadStep::Refused(i, m),
            Ok(true) => spec_seq_step(t, i + 1, len, options, visited, null_id),
            Ok(false) => ReadStep::Found(i),
        }
    }
}

/// Two values that are the same value are skipped alike.
proof fn lemma_skip_same(a: Value, b: Value, options: Options, visited: Seq<ObjectId>, null_id: ObjectId)
    requires
        crate::value::spec_same_value(a, b),
    ensures
        spec_skip(a, options, visited, null_id) == spec_skip(b, options, visited, null_id),
{
}

/// Reads the array slots `index..=len` of a table, one element at a time.
#[derive(Debug)]
pub struct SeqReader {
    pub(crate) table: ObjectId,
    pub(crate) index: u64,
    pub(crate) len: u64,
    pub(crate) options: Options,
    pub(crate) visited: Vec<ObjectId>,
    pub(crate) null_id: ObjectId,
}

impl SeqReader {
    /// The position is within `1..=len+1` and the length fits a Lua integer.
    pub closed spec fn wf(&self) -> bool {
        1 <= self.index <= self.len + 1 && self.len <= i64::MAX
    }

    /// The table read.
    pub closed spec fn spec_table(&self) -> ObjectId {
        self.table
    }

    /// The next slot to read.
    pub closed spec fn spec_index(&self) -> int {
        self.index as int
    }

    /// The last slot.
    pub closed spec fn spec_len(&self) -> int {
        self.len as int
    }

    /// The options.
    pub closed spec fn spec_options(&self) -> Options {
        self.options
    }

    /// The tables being read, this one last.
    pub closed spec fn spec_visited(&self) -> Seq<ObjectId> {
        self.visited@
    }

    /// The `null` table.
    pub closed spec fn spec_null_id(&self) -> ObjectId {
        self.null_id
    }

    /// The table read.
    pub fn table(&self) -> (r: ObjectId)
        ensures
            r == self.spec_table(),
    {
        self.table
    }

    /// The last slot.
    pub fn len(&self) -> (r: u64)
        ensures
            r == self.spec_len(),
    {
        self.len
    }

    /// Reads the next element: the next slot that is not skipped, or none at
    /// the end; a refused slot is an error. `table` is the table read.
    pub fn next_element(&mut self, table: &Table) -> (r: Result<Option<Deserializer>, Error>)
        requires
            old(self).wf(),
            table.wf(),
            table.spec_id() == old(self).spec_table(),
        ensures
            final(self).wf(),
            final(self).spec_table() == old(self).spec_table(),
            final(self).spec_len() == old(self).spec_len(),
            final(self).spec_options() == old(self).spec_options(),
            final(self).spec_visited() == old(self).spec_visited(),
            final(self).spec_null_id() == old(self).spec_null_id(),
            match spec_seq_step(
                *table,
                old(self).spec_index(),
                old(self).spec_len(),
                old(self).spec_options(),
                old(self).spec_visited(),
                old(self).spec_null_id(),
            ) {
                ReadStep::End(i) => r matches Ok(None) && final(self).spec_index() == i,
                ReadStep::Found(i) => r matches Ok(Some(d)) && final(self).spec_index() == i + 1
                    && crate::value::spec_same_value(d.spec_value(), spec_slot(*table, i))
                    && d.spec_options() == old(self).spec_options() && d.spec_visited() == old(self).spec_visited()
                    && d.spec_null_id() == old(self).spec_null_id(),
                ReadStep::Refused(i, m) => r matches Err(Error::DeserializeError(s)) && s@ == m@
                    && final(self).spec_index() == i + 1,
            },
    {
        let ghost step = spec_seq_step(*table, self.index as int, self.len as int, self.options, self.visited@, self.null_id);
        while self.index <= self.len
            invariant
                self.wf(),
                table.wf(),
                table.spec_id() == self.table,
                self.table == old(self).table,
                self.len == old(self).len,
                self.options == old(self).options,
                self.visited@ == old(self).visited@,
                self.null_id == old(self).null_id,
                step == spec_seq_step(*table, self.index as int, self.len as int, self.options, self.visited@, self.null_id),
                step == spec_seq_step(
                    *table,
                    old(self).spec_index(),
                    old(self).spec_len(),
                    old(self).spec_options(),
                    old(self).spec_visited(),
                    old(self).spec_null_id(),
                ),
            decreases self.len + 1 - self.index,
        {
            let i = self.index;
            let value = table.raw_get(&Value::Integer(i as i64));
            self.index = i + 1;
            proof {
                assert(key_of(Value::Integer(i as i64)) == Some(Key::Integer((i as int) as i64)));
                lemma_skip_same(value, spec_slot(*table, i as int), self.options, self.visited@, self.null_id);
            }
            match check_value_for_skip(&value, self.options, &self.visited, self.null_id) {
                Err(m) => {
                    return Err(Error::DeserializeError(m.to_owned()));
                },
                Ok(true) => {},
                Ok(false) => {
                    let visited = copy_ids(&self.visited);
                    return Ok(Some(Deserializer { value, options: self.options, visited, null_id: self.null_id }));
                },
            }
        }
        Ok(None)
    }

    /// Ends reading: an error when slots were left unread.
    pub fn finish(&self) -> (r: Result<(), Error>)
        requires
            self.spec_len() <= usize::MAX,
        ensures
            self.spec_index() > self.spec_len() ==> r is Ok,
            self.spec_index() <= self.spec_len() ==> (r matches Err(Error::DeserializeError(m)) && m@
                == spec_invalid_length_text(self.spec_len(), "fewer elements in the table"@)),
    {
        if self.index > self.len {
            Ok(())
        } else {
            Err(Error::DeserializeError(invalid_length_text(self.len, "fewer elements in the table")))
        }
    }
}

/// Each key is ordered no later than every key after it.
pub open spec fn spec_sorted_entries(s: Seq<(Value, Value)>, null_id: ObjectId) -> bool {
    forall|i: int, j: int| 0 <= i < j < s.len() ==> spec_key_order(#[trigger] s[i].0, #[trigger] s[j].0, null_id) <= 0
}

/// The entries a map read visits, in order: the table's entries, sorted by
/// key when keys are sorted.
pub open spec fn spec_map_entries(t: Table, s: Seq<(Value, Value)>, sort_keys: bool, null_id: ObjectId) -> bool {
    if sort_keys {
        &&& exists|u: Seq<(Value, Value)>| spec_entries_of(t, u) && s.to_multiset() == u.to_multiset()
        &&& spec_sorted_entries(s, null_id)
    } else {
        spec_entries_of(t, s)
    }
}

/// The entries sorted by key, each ordered no later than those after it; of
/// keys that order alike, the later entry comes first.
fn sort_entries(entries: Vec<(Value, Value)>, null_id: ObjectId) -> (r: Vec<(Value, Value)>)
    ensures
        r@.to_multiset() == entries@.to_multiset(),
        spec_sorted_entries(r@, null_id),
{
    broadcast use vstd::multiset::group_multiset_axioms;
    broadcast use vstd::seq_lib::to_multiset_build;
    broadcast use vstd::seq_lib::to_multiset_insert;

    let ghost all = entries@;
    let mut rest = entries;
    let mut out: Vec<(Value, Value)> = Vec::new();
    proof {
        assert(out@.to_multiset() =~= Multiset::<(Value, Value)>::empty()) by {
            vstd::seq_lib::to_multiset_len(out@);
            vstd::multiset::lemma_multiset_empty_len(out@.to_multiset());
        }
    }
    while rest.len() > 0
        invariant
            out@.to_multiset().add(rest@.to_multiset()) == all.to_multiset(),
            spec_sorted_entries(out@, null_id),
        decreases rest.len(),
    {
        let ghost before = rest@;
        let x = match rest.pop() {
            Some(x) => x,
            None => (Value::Nil, Value::Nil),
        };
        assert(before == rest@.push(x));
        let mut j: usize = 0;
        while j < out.len() && key_order(&x.0, &out[j].0, null_id) >= 0
            invariant
                j <= out@.len(),
                forall|k: int| 0 <= k < j ==> spec_key_order(x.0, #[trigger] out@[k].0, null_id) >= 0,
            decreases out.len() - j,
        {
            j += 1;
        }
        let ghost prev = out@;
        out.insert(j, x);
        proof {
            assert(out@ == prev.insert(j as int, x));
            assert forall|a: int, b: int| 0 <= a < b < out@.len() implies spec_key_order(
                #[trigger] out@[a].0,
                #[trigger] out@[b].0,
                null_id,
            ) <= 0 by {
                if b < j {
                    assert(out@[a] == prev[a] && out@[b] == prev[b]);
                } else if b == j {
                    assert(out@[a] == prev[a]);
                    law_key_order_antisymmetric(x.0, prev[a].0, null_id);
                } else if a == j {
                    assert(out@[b] == prev[b - 1]);
                    if b - 1 > j {
                        assert(spec_key_order(prev[j as int].0, prev[b - 1].0, null_id) <= 0);
                        law_key_order_transitive(x.0, prev[j as int].0, prev[b - 1].0, null_id);
                    }
                } else if a < j {
                    assert(out@[a] == prev[a] && out@[b] == prev[b - 1]);
                } else {
                    assert(out@[a] == prev[a - 1] && out@[b] == prev[b - 1]);
                }
            }
            vstd::seq_lib::to_multiset_insert(prev, j as int, x);
            vstd::seq_lib::to_multiset_build(rest@, x);
            assert(out@.to_multiset().add(rest@.to_multiset()) =~= prev.to_multiset().add(before.to_multiset()));
        }
    }
    proof {
        assert(rest@.to_multiset() =~= Multiset::<(Value, Value)>::empty()) by {
            vstd::seq_lib::to_multiset_len(rest@);
            vstd::multiset::lemma_multiset_empty_len(rest@.to_multiset());
        }
        assert(out@.to_multiset().add(rest@.to_multiset()) =~= out@.to_multiset());
    }
    out
}

/// Where reading map entries stops: at the end, at an entry that is read
/// (its key and value, and what is left), or at one that is refused.
pub enum MapStep {
    /// No entry is left.
    End,
    /// This key and value are read; the entries after them are left.
    Found(Value, Value, Seq<(Value, Value)>),
    /// An entry is refused, for this reason; the entries after it are left.
    Refused(&'static str, Seq<(Value, Value)>),
}

/// Where reading the entries `s` stops: an entry whose key or value is
/// skipped is passed over; the key is checked before the value.
pub open spec fn spec_map_step(s: Seq<(Value, Value)>, options: Options, visited: Seq<ObjectId>, null_id: ObjectId) -> MapStep
    decreases s.len(),
{
    if s.len() == 0 {
        MapStep::End
    } else {
        match spec_skip(s[0].0, options, visited, null_id) {
            Err(m) => MapStep::Refused(m, s.drop_first()),
            Ok(skip_key) => match spec_skip(s[0].1, options, visited, null_id) {
                Err(m) => MapStep::Refused(m, s.drop_first()),
                Ok(skip_value) => if skip_key || skip_value {
                    spec_map_step(s.drop_first(), options, visited, null_id)
                } else {
                    MapStep::Found(s[0].0, s[0].1, s.drop_first())
                },
            },
        }
    }
}

/// `m` starts reading the table `t`, whose identity is `id`, as a map, with
/// `options`, inside the tables `visited`.
pub open spec fn spec_map_start(
    m: MapReader,
    id: ObjectId,
    t: Table,
    options: Options,
    visited: Seq<ObjectId>,
    null_id: ObjectId,
) -> bool {
    &&& m.wf()
    &&& m.spec_table() == id
    &&& m.spec_pending() is None
    &&& m.spec_processed() == 0
    &&& m.spec_options() == options
    &&& m.spec_visited() == visited.push(id)
    &&& m.spec_null_id() == null_id
    &&& spec_map_entries(t, m.spec_pairs(), options.sort_keys, null_id)
}

/// Reads the entries of a table as a map, one entry at a time: a key, then
/// its value.
#[derive(Debug)]
pub struct MapReader {
    pub(crate) table: ObjectId,
    pub(crate) pairs: VecDeque<(Value, Value)>,
    pub(crate) value: Option<Value>,
    pub(crate) processed: usize,
    pub(crate) options: Options,
    pub(crate) visited: Vec<ObjectId>,
    pub(crate) null_id: ObjectId,
}

impl MapReader {
    /// The count of entries read and of entries left fits a `usize`.
    pub closed spec fn wf(&self) -> bool {
        self.processed + self.pairs@.len() <= usize::MAX
    }

    /// The table read.
    pub closed spec fn spec_table(&self) -> ObjectId {
        self.table
    }

    /// The entries not read yet, in order.
    pub closed spec fn spec_pairs(&self) -> Seq<(Value, Value)> {
        self.pairs@
    }

    /// The value of the key read last, until it is read.
    pub closed spec fn spec_pending(&self) -> Option<Value> {
        self.value
    }

    /// How many entries were read.
    pub closed spec fn spec_processed(&self) -> int {
        self.processed as int
    }

    /// The options.
    pub closed spec fn spec_options(&self) -> Options {
        self.options
    }

    /// The tables being read, this one last.
    pub closed spec fn spec_visited(&self) -> Seq<ObjectId> {
        self.visited@
    }

    /// The `null` table.
    pub closed spec fn spec_null_id(&self) -> ObjectId {
        self.null_id
    }

    /// Reads the next key: the next entry whose key and value are not
    /// skipped, or none at the end; a refused key or value is an error.
    pub fn next_key(&mut self) -> (r: Result<Option<Deserializer>, Error>)
        requires
            old(self).wf(),
        ensures
            final(self).wf(),
            final(self).spec_table() == old(self).spec_table(),
            final(self).spec_options() == old(self).spec_options(),
            final(self).spec_visited() == old(self).spec_visited(),
            final(self).spec_null_id() == old(self).spec_null_id(),
            match spec_map_step(old(self).spec_pairs(), old(self).spec_options(), old(self).spec_visited(), old(self).spec_null_id()) {
                MapStep::End => r matches Ok(None) && final(self).spec_pairs().len() == 0
                    && final(self).spec_pending() == old(self).spec_pending()
                    && final(self).spec_processed() == old(self).spec_processed(),
                MapStep::Found(k, v, rest) => r matches Ok(Some(d)) && d.spec_value() == k
                    && d.spec_options() == old(self).spec_options() && d.spec_visited() == old(self).spec_visited()
                    && d.spec_null_id() == old(self).spec_null_id() && final(self).spec_pending() == Some(v)
                    && final(self).spec_pairs() == rest && final(self).spec_processed() == old(self).spec_processed() + 1,
                MapStep::Refused(m, rest) => r matches Err(Error::DeserializeError(s)) && s@ == m@
                    && final(self).spec_pairs() == rest && final(self).spec_pending() == old(self).spec_pending()
                    && final(self).spec_processed() == old(self).spec_processed(),
            },
    {
        let ghost step = spec_map_step(self.pairs@, self.options, self.visited@, self.null_id);
        while self.pairs.len() > 0
            invariant
                self.wf(),
                self.table == old(self).table,
                self.options == old(self).options,
                self.visited@ == old(self).visited@,
                self.null_id == old(self).null_id,
                self.value == old(self).value,
                self.processed == old(self).processed,
                step == spec_map_step(self.pairs@, self.options, self.visited@, self.null_id),
                step == spec_map_step(
                    old(self).spec_pairs(),
                    old(self).spec_options(),
                    old(self).spec_visited(),
                    old(self).spec_null_id(),
                ),
            decreases self.pairs.len(),
        {
            let ghost before = self.pairs@;
            let (key, value) = match self.pairs.pop_front() {
                Some(e) => e,
                None => (Value::Nil, Value::Nil),
            };
            assert(before[0] == (key, value) && self.pairs@ == before.drop_first());
            let skip_key = match check_value_for_skip(&key, self.options, &self.visited, self.null_id) {
                Ok(b) => b,
                Err(m) => {
                    return Err(Error::DeserializeError(m.to_owned()));
                },
            };
            let skip_value = match check_value_for_skip(&value, self.options, &self.visited, self.null_id) {
                Ok(b) => b,
                Err(m) => {
                    return Err(Error::DeserializeError(m.to_owned()));
                },
            };
            if !(skip_key || skip_value) {
                self.processed = self.processed + 1;
                self.value = Some(value);
                let visited = copy_ids(&self.visited);
                return Ok(Some(Deserializer { value: key, options: self.options, visited, null_id: self.null_id }));
            }
        }
        Ok(None)
    }

    /// Reads the value of the key read last; an error when there is none.
    pub fn next_value(&mut self) -> (r: Result<Deserializer, Error>)
        ensures
            old(self).wf() ==> final(self).wf(),
            final(self).spec_table() == old(self).spec_table(),
            final(self).spec_pairs() == old(self).spec_pairs(),
            final(self).spec_processed() == old(self).spec_processed(),
            final(self).spec_options() == old(self).spec_options(),
            final(self).spec_visited() == old(self).spec_visited(),
            final(self).spec_null_id() == old(self).spec_null_id(),
            final(self).spec_pending() is None,
            old(self).spec_pending() matches Some(v) ==> (r matches Ok(d) && d.spec_value() == v
                && d.spec_options() == old(self).spec_options() && d.spec_visited() == old(self).spec_visited()
                && d.spec_null_id() == old(self).spec_null_id()),
            old(self).spec_pending() is None ==> (r matches Err(Error::DeserializeError(m)) && m@ == "value is missing"@),
    {
        let mut taken: Option<Value> = None;
        core::mem::swap(&mut taken, &mut self.value);
        match taken {
            Some(value) => {
                let visited = copy_ids(&self.visited);
                Ok(Deserializer { value, options: self.options, visited, null_id: self.null_id })
            },
            None => Err(Error::DeserializeError("value is missing".to_owned())),
        }
    }

    /// Ends reading: an error, counting every entry, when entries were left.
    pub fn finish(&self) -> (r: Result<(), Error>)
        requires
            self.wf(),
        ensures
            self.spec_pairs().len() == 0 ==> r is Ok,
            self.spec_pairs().len() > 0 ==> (r matches Err(Error::DeserializeError(m)) && m@ == spec_invalid_length_text(
                self.spec_processed() + self.spec_pairs().len(),
                "fewer elements in the table"@,
            )),
    {
        let count = self.pairs.len();
        if count == 0 {
            Ok(())
        } else {
            let total = self.processed + count;
            Err(Error::DeserializeError(invalid_length_text(total as u64, "fewer elements in the table")))
        }
    }
}

/// Whether a value is the `null` value (the sentinel table `null_id`).
pub fn is_null(v: &Value, null_id: ObjectId) -> (r: bool)
    ensures
        r == (*v == spec_null(null_id)),
{
    match v {
        Value::Table(id) => id.0 == null_id.0,
        _ => false,
    }
}

/// What reading a value does about skipping: `Ok(true)` skips it, `Ok(false)`
/// reads it, `Err` refuses it.
pub open spec fn spec_skip(v: Value, options: Options, visited: Seq<ObjectId>, null_id: ObjectId) -> Result<bool, &'static str> {
    if v == spec_null(null_id) {
        Ok(false)
    } else {
        match v {
            Value::Table(id) => if visited.contains(id) {
                if options.deny_recursive_tables { Err("recursive table detected") } else { Ok(true) }
            } else {
                Ok(false)
            },
            Value::Function(_) | Value::Thread(_) | Value::UserData(_) | Value::Error(_) => if !options.deny_unsupported_types {
                Ok(true)
            } else {
                Ok(false)
            },
            _ => Ok(false),
        }
    }
}

/// Whether reading `value` skips it, reads it, or refuses it: `null` is
/// always read; a table already being read is skipped or refused; a
/// function, thread, userdata or error is skipped unless such values are
/// refused (they are then refused when read).
pub fn check_value_for_skip(value: &Value, options: Options, visited: &Vec<ObjectId>, null_id: ObjectId) -> (r: Result<
    bool,
    &'static str,
>)
    ensures
        r == spec_skip(*value, options, visited@, null_id),
{
    if is_null(value, null_id) {
        return Ok(false);
    }
    match value {
        Value::Table(id) => {
            let mut i: usize = 0;
            while i < visited.len()
                invariant
                    i <= visited@.len(),
                    *value == Value::Table(*id),
                    *value != spec_null(null_id),
                    forall|j: int| 0 <= j < i ==> visited@[j] != *id,
                decreases visited.len() - i,
            {
                if visited[i].0 == id.0 {
                    assert(visited@[i as int] == *id);
                    assert(visited@.contains(*id));
                    assert(*value == Value::Table(*id));
                    if options.deny_recursive_tables {
                        return Err("recursive table detected");
                    }
                    return Ok(true);
                }
                i += 1;
            }
            Ok(false)
        },
        Value::Function(_) | Value::Thread(_) | Value::UserData(_) | Value::Error(_) => {
            if !options.deny_unsupported_types {
                Ok(true)
            } else {
                Ok(false)
            }
        },
        _ => Ok(false),
    }
}

/// When every key of the entries is a positive integer: how many entries
/// there are and the largest key.
pub fn find_array_len(entries: &Vec<(Value, Value)>) -> (r: Option<(usize, u64)>)
    ensures
        r is Some <==> forall|i: int| 0 <= i < entries@.len() ==> (#[trigger] entries@[i].0 matches Value::Integer(k)
            && k >= 1),
        r matches Some((count, max)) ==> count == entries@.len() && max <= i64::MAX && (forall|i: int| 0 <= i < entries@.len() ==> (
        #[trigger] entries@[i].0 matches Value::Integer(k) && k <= max)) && (entries@.len() == 0 ==> max == 0)
            && (entries@.len() > 0 ==> exists|i: int| 0 <= i < entries@.len() && #[trigger] entries@[i].0 == Value::Integer(
            max as i64,
        )),
{
    let mut count: usize = 0;
    let mut max: u64 = 0;
    let mut i: usize = 0;
    while i < entries.len()
        invariant
            i <= entries@.len(),
            count == i,
            forall|j: int| 0 <= j < i ==> (#[trigger] entries@[j].0 matches Value::Integer(k) && k >= 1 && k <= max),
            i == 0 ==> max == 0,
            i > 0 ==> exists|j: int| 0 <= j < i && #[trigger] entries@[j].0 == Value::Integer(max as i64),
            max <= i64::MAX,
        decreases entries.len() - i,
    {
        match &entries[i].0 {
            Value::Integer(k) => {
                if *k < 1 {
                    return None;
                }
                let n = *k as u64;
                if n > max {
                    max = n;
                    assert(entries@[i as int].0 == Value::Integer(max as i64));
                }
            },
            _ => {
                return None;
            },
        }
        count += 1;
        i += 1;
    }
    Some((count, max))
}

/// Every key of the map is a positive integer.
pub open spec fn spec_index_keys(m: Map<Key, Value>) -> bool {
    forall|k: Key| #[trigger] m.contains_key(k) ==> (k matches Key::Integer(i) && i >= 1)
}

/// `x` is the largest key of a map of positive integer keys (0 when empty).
pub open spec fn spec_is_max_index(m: Map<Key, Value>, x: u64) -> bool {
    &&& x <= i64::MAX
    &&& forall|k: Key| #[trigger] m.contains_key(k) ==> (k matches Key::Integer(i) && i <= x)
    &&& if exists|k: Key| #[trigger] m.contains_key(k) {
        m.contains_key(Key::Integer(x as i64))
    } else {
        x == 0
    }
}

/// Whether a dense-enough positive-integer-keyed table reads as an array:
/// fewer than 10 entries, or at least half of the indices up to the largest.
pub open spec fn spec_dense(count: int, max: int) -> bool {
    count < 10 || count * 2 >= max
}

/// The largest key of a map of positive integer keys, when it has one.
pub open spec fn spec_max_index(m: Map<Key, Value>) -> u64 {
    choose|x: u64| spec_is_max_index(m, x)
}

/// How a table is read: as an array of the given length, or (none) as a map.
/// Without mixed-table detection: an array of its raw length when that is
/// positive or the table has the array metatable, an empty array when it is
/// empty and empty tables read as arrays, else a map. With it: an array up
/// to its largest key when every key is a positive integer and the table is
/// dense enough, else a map.
pub open spec fn spec_encode_as_array(table: Table, options: Options, array_metatable: ObjectId) -> Option<u64> {
    if options.detect_mixed_tables {
        if spec_index_keys(table@) && (exists|m: u64| spec_is_max_index(table@, m)) && spec_dense(
            table.spec_size() as int,
            spec_max_index(table@) as int,
        ) {
            Some(spec_max_index(table@))
        } else {
            None
        }
    } else if table.spec_raw_len() > 0 || table.spec_metatable() == Some(array_metatable) {
        Some(table.spec_raw_len() as u64)
    } else if options.encode_empty_tables_as_array && table@ == Map::<Key, Value>::empty() {
        Some(0u64)
    } else {
        None
    }
}

/// How a table is read: as an array of the given length, or (none) as a map.
pub fn encode_as_array(table: &Table, options: Options, array_metatable: ObjectId) -> (r: Option<u64>)
    requires
        table.wf(),
    ensures
        r == spec_encode_as_array(*table, options, array_metatable),
{
    if options.detect_mixed_tables {
        let entries = table.pairs();
        match find_array_len(&entries) {
            Some((len, max)) => {
                proof {
                    lemma_array_keys(table, entries@, max);
                    lemma_max_unique(table@, spec_max_index(table@), max);
                }
                if len < 10 || (len as u128) * 2 >= max as u128 {
                    return Some(max);
                }
                None
            },
            None => {
                proof { lemma_not_array_keys(table, entries@); }
                None
            },
        }
    } else {
        let len = table.raw_len();
        if len > 0 || table.metatable() == Some(array_metatable) {
            return Some(len as u64);
        }
        if options.encode_empty_tables_as_array && table.is_empty() {
            return Some(0);
        }
        None
    }
}

/// Two largest keys are the same key.
proof fn lemma_max_unique(m: Map<Key, Value>, a: u64, b: u64)
    requires
        spec_is_max_index(m, a),
        spec_is_max_index(m, b),
    ensures
        a == b,
{
    if exists|k: Key| #[trigger] m.contains_key(k) {
        assert(m.contains_key(Key::Integer(a as i64)));
        assert(m.contains_key(Key::Integer(b as i64)));
    }
}

/// When every entry key is a positive integer, so is every key of the
/// table, and `max` is the largest.
proof fn lemma_array_keys(table: &Table, entries: Seq<(Value, Value)>, max: u64)
    requires
        table.wf(),
        entries.len() == table.spec_size(),
        forall|i: int| 0 <= i < entries.len() ==> (key_of(#[trigger] entries[i].0) matches Some(k) && table@.contains_key(k)),
        forall|k: Key| #[trigger] table@.contains_key(k) ==> exists|i: int| 0 <= i < entries.len() && key_of(
            #[trigger] entries[i].0,
        ) == Some(k),
        forall|i: int| 0 <= i < entries.len() ==> (#[trigger] entries[i].0 matches Value::Integer(k) && k >= 1 && k <= max),
        max <= i64::MAX,
        entries.len() == 0 ==> max == 0,
        entries.len() > 0 ==> exists|i: int| 0 <= i < entries.len() && #[trigger] entries[i].0 == Value::Integer(max as i64),
    ensures
        spec_index_keys(table@),
        spec_is_max_index(table@, max),
{
    assert forall|k: Key| #[trigger] table@.contains_key(k) implies (k matches Key::Integer(i) && i >= 1 && i <= max) by {
        let i = choose|i: int| 0 <= i < entries.len() && key_of(#[trigger] entries[i].0) == Some(k);
        assert(entries[i].0 matches Value::Integer(x) && x >= 1 && x <= max);
    }
    if entries.len() > 0 {
        let i = choose|i: int| 0 <= i < entries.len() && #[trigger] entries[i].0 == Value::Integer(max as i64);
        assert(key_of(entries[i].0) == Some(Key::Integer(max as i64)));
        assert(table@.contains_key(Key::Integer(max as i64)));
    } else {
        assert forall|k: Key| !table@.contains_key(k) by {
            if table@.contains_key(k) {
                let i = choose|i: int| 0 <= i < entries.len() && key_of(#[trigger] entries[i].0) == Some(k);
            }
        }
    }
}

/// When some entry key is not a positive integer, some key of the table is not.
proof fn lemma_not_array_keys(table: &Table, entries: Seq<(Value, Value)>)
    requires
        forall|i: int| 0 <= i < entries.len() ==> (key_of(#[trigger] entries[i].0) matches Some(k) && table@.contains_key(k)),
        !(forall|i: int| 0 <= i < entries.len() ==> (#[trigger] entries[i].0 matches Value::Integer(k) && k >= 1)),
    ensures
        !spec_index_keys(table@),
{
    let i = choose|i: int| 0 <= i < entries.len() && !(#[trigger] entries[i].0 matches Value::Integer(k) && k >= 1);
    let k = key_of(entries[i].0)->Some_0;
    assert(table@.contains_key(k));
}

/// The rank of a value in the key order: `nil`, `null`, booleans,
/// integers, strings, then everything else.
pub open spec fn spec_rank(v: Value, null_id: ObjectId) -> int {
    if v is Nil {
        0
    } else if v == spec_null(null_id) {
        1
    } else {
        match v {
            Value::Boolean(_) => 2,
            Value::Integer(_) => 3,
            Value::String(_) => 4,
            _ => 5,
        }
    }
}

/// The identity a value is ordered by among values of the last rank.
pub open spec fn spec_pointer(v: Value) -> int {
    match v {
        Value::LightUserData(p) => p.0 as int,
        Value::Table(id) => id.0 as int,
        Value::Function(id) => id.0 as int,
        Value::Thread(id) => id.0 as int,
        Value::UserData(id) => id.0 as int,
        Value::Buffer(id) => id.0 as int,
        _ => 0,
    }
}

/// The sign of `a - b`.
pub open spec fn spec_sign(a: int, b: int) -> int {
    if a < b { -1 } else if a == b { 0 } else { 1 }
}

/// The order of keys when they are sorted: by rank, then within a rank
/// booleans (`false` first), integers and strings (bytewise) by value, and
/// the rest by identity.
pub open spec fn spec_key_order(a: Value, b: Value, null_id: ObjectId) -> int {
    if spec_rank(a, null_id) != spec_rank(b, null_id) {
        spec_sign(spec_rank(a, null_id), spec_rank(b, null_id))
    } else {
        match (a, b) {
            (Value::Boolean(x), Value::Boolean(y)) => spec_sign(if x { 1 } else { 0 }, if y { 1 } else { 0 }),
            (Value::Integer(x), Value::Integer(y)) => spec_sign(x as int, y as int),
            (Value::String(x), Value::String(y)) => spec_lex_compare(x@, y@),
            _ => if spec_rank(a, null_id) <= 1 { 0 } else { spec_sign(spec_pointer(a), spec_pointer(b)) },
        }
    }
}

/// The rank of a value in the key order.
fn rank(v: &Value, null_id: ObjectId) -> (r: u8)
    ensures
        r == spec_rank(*v, null_id),
{
    if v.is_nil() {
        0
    } else if is_null(v, null_id) {
        1
    } else {
        match v {
            Value::Boolean(_) => 2,
            Value::Integer(_) => 3,
            Value::String(_) => 4,
            _ => 5,
        }
    }
}

/// The identity of a value of the last rank.
fn pointer(v: &Value) -> (r: u64)
    ensures
        r == spec_pointer(*v),
{
    match v {
        Value::LightUserData(p) => p.0 as u64,
        Value::Table(id) => id.0,
        Value::Function(id) => id.0,
        Value::Thread(id) => id.0,
        Value::UserData(id) => id.0,
        Value::Buffer(id) => id.0,
        _ => 0,
    }
}

/// The key order as `-1`, `0` or `1`.
pub fn key_order(a: &Value, b: &Value, null_id: ObjectId) -> (r: i8)
    ensures
        r == spec_key_order(*a, *b, null_id),
{
    let ra = rank(a, null_id);
    let rb = rank(b, null_id);
    if ra != rb {
        return if ra < rb { -1 } else { 1 };
    }
    match (a, b) {
        (Value::Boolean(x), Value::Boolean(y)) => {
            if *x == *y { 0 } else if !*x { -1 } else { 1 }
        },
        (Value::Integer(x), Value::Integer(y)) => {
            if *x < *y { -1 } else if *x == *y { 0 } else { 1 }
        },
        (Value::String(x), Value::String(y)) => lex_compare(x.as_bytes(), y.as_bytes()),
        _ => {
            if ra <= 1 {
                0
            } else {
                let pa = pointer(a);
                let pb = pointer(b);
                if pa < pb { -1 } else if pa == pb { 0 } else { 1 }
            }
        },
    }
}

/// The key order as an `Ordering`.
pub fn sort_cmp(a: &Value, b: &Value, null_id: ObjectId) -> (r: Ordering)
    ensures
        r == ordering_of(spec_key_order(*a, *b, null_id)),
{
    let c = key_order(a, b, null_id);
    if c < 0 {
        Ordering::Less
    } else if c == 0 {
        Ordering::Equal
    } else {
        Ordering::Greater
    }
}

/// A serialized newtype variant reads back as the same variant: a table
/// holding just `value` under the variant's name reads as an enum named by
/// that name, with the value as its data (when the value is neither skipped
/// nor refused).
pub proof fn law_newtype_variant_round_trip(
    d: Deserializer,
    t: Table,
    variant: Seq<char>,
    value: Value,
    r: Result<EnumRead, Error>,
)
    requires
        t.wf(),
        d.spec_value() == Value::Table(t.spec_id()),
        t@ == crate::table::spec_after_set(Map::empty(), Key::String(encode_utf8(variant)), value),
        !(value is Nil),
        spec_skip(value, d.spec_options(), d.spec_visited().push(t.spec_id()), d.spec_null_id()) == Ok::<bool, &'static str>(false),
        d.spec_reads_enum(Some(&t), r),
    ensures
        r matches Ok(er) && er.spec_variant() == variant && (er.spec_data() matches Some(x)
            && crate::value::spec_same_value(x.spec_value(), value)),
{
    let k = Key::String(encode_utf8(variant));
    t.lemma_key_count();
    assert(t@.dom() =~= set![k]);
    assert(t@.contains_key(k));
    vstd::utf8::encode_utf8_valid_utf8(variant);
    vstd::utf8::encode_utf8_decode_utf8(variant);
}

/// A serialized sequence reads back as the same values in the same order:
/// a table holding values none of which is `nil` (nor skipped or refused)
/// under `1..=n` has raw length `n`, and reading it from any position finds
/// the value there, up to the end.
pub proof fn law_serialized_seq_reads_back(
    t: Table,
    vals: Seq<Value>,
    options: Options,
    visited: Seq<ObjectId>,
    null_id: ObjectId,
)
    requires
        t.wf(),
        t@ == crate::serialize::ser::spec_serialized_seq(vals),
        vals.len() < i64::MAX,
        forall|j: int| 0 <= j < vals.len() ==> !(#[trigger] vals[j] is Nil),
        forall|j: int| 0 <= j < vals.len() ==> spec_skip(#[trigger] vals[j], options, visited, null_id) == Ok::<
            bool,
            &'static str,
        >(false),
    ensures
        t.spec_raw_len() == vals.len(),
        forall|i: int| 1 <= i <= vals.len() ==> #[trigger] spec_slot(t, i) == vals[i - 1],
        forall|i: int| 1 <= i <= vals.len() ==> #[trigger] spec_seq_step(t, i, vals.len() as int, options, visited, null_id)
            == ReadStep::Found(i),
        spec_seq_step(t, vals.len() + 1int, vals.len() as int, options, visited, null_id) == ReadStep::End(vals.len() + 1int),
{
    let n = vals.len() as int;
    crate::serialize::ser::lemma_serialized_seq(vals);
    crate::table::lemma_raw_len_is_border(&t);
    t.lemma_raw_len_bound();
    let len = t.spec_raw_len() as int;
    if len > n {
        assert(t@.contains_key(Key::Integer(len as i64)));
    }
    if len < n {
        assert(t@.contains_key(Key::Integer((len + 1) as i64)));
    }
    assert forall|i: int| 1 <= i <= n implies #[trigger] spec_slot(t, i) == vals[i - 1] by {
        assert(t@.contains_key(Key::Integer(i as i64)));
    }
    assert forall|i: int| 1 <= i <= n implies #[trigger] spec_seq_step(t, i, n, options, visited, null_id)
        == ReadStep::Found(i) by {
        assert(spec_slot(t, i) == vals[i - 1]);
    }
}

/// The key order is transitive: a key ordered no later than a second, which
/// is ordered no later than a third, is ordered no later than the third.
pub proof fn law_key_order_transitive(a: Value, b: Value, c: Value, null_id: ObjectId)
    requires
        spec_key_order(a, b, null_id) <= 0,
        spec_key_order(b, c, null_id) <= 0,
    ensures
        spec_key_order(a, c, null_id) <= 0,
{
    if let (Value::String(x), Value::String(y), Value::String(z)) = (a, b, c) {
        crate::string::lemma_lex_compare_transitive(x@, y@, z@);
    }
}

/// The key order is antisymmetric: swapping the keys flips the order.
pub proof fn law_key_order_antisymmetric(a: Value, b: Value, null_id: ObjectId)
    ensures
        spec_key_order(a, b, null_id) == -spec_key_order(b, a, null_id),
{
    if spec_rank(a, null_id) == spec_rank(b, null_id) {
        match (a, b) {
            (Value::String(x), Value::String(y)) => {
                crate::string::lemma_lex_compare_laws(x@, y@);
            },
            _ => {},
        }
    }
}

/// Sorted keys of the same kind come in ascending order: integers by
/// value (a smaller integer first), and `false` before `true`.
pub proof fn law_key_order_ascending(x: i64, y: i64, null_id: ObjectId)
    ensures
        x < y ==> spec_key_order(Value::Integer(x), Value::Integer(y), null_id) < 0,
        x == y ==> spec_key_order(Value::Integer(x), Value::Integer(y), null_id) == 0,
        x > y ==> spec_key_order(Value::Integer(x), Value::Integer(y), null_id) > 0,
        spec_key_order(Value::Boolean(false), Value::Boolean(true), null_id) < 0,
{
}

/// With mixed-table detection, a table of fewer than 10 entries whose keys
/// are all positive integers reads as an array up to its largest key,
/// however sparse it is (an empty one as an empty array).
pub proof fn law_small_index_tables_read_as_arrays(table: Table, options: Options, array_metatable: ObjectId, max: u64)
    requires
        table.wf(),
        options.detect_mixed_tables,
        table.spec_size() < 10,
        max <= i64::MAX,
        forall|k: Key| #[trigger] table@.contains_key(k) ==> (k matches Key::Integer(i) && 1 <= i <= max),
        table@.contains_key(Key::Integer(max as i64)) || (table@ == Map::<Key, Value>::empty() && max == 0),
    ensures
        spec_encode_as_array(table, options, array_metatable) == Some(max),
{
    assert(spec_is_max_index(table@, max)) by {
        if !(exists|k: Key| #[trigger] table@.contains_key(k)) {
            if table@.contains_key(Key::Integer(max as i64)) {
                assert(false);
            }
        } else if table@ == Map::<Key, Value>::empty() {
            let k = choose|k: Key| #[trigger] table@.contains_key(k);
            assert(false);
        }
    }
    lemma_max_unique(table@, spec_max_index(table@), max);
}

/// Reading any value gives back a boolean, an integer or `nil` as the
/// value held: `Bool(b)` for the boolean `b`, `Integer(i)` for the integer
/// `i`, unit for `nil`.
pub proof fn law_any_reads_scalars_as_held(d: Deserializer, table: Option<&Table>, array_metatable: ObjectId, r: Result<AnyRead, Error>)
    requires
        d.spec_reads_any(table, array_metatable, r),
    ensures
        d.spec_value() matches Value::Boolean(b) ==> (r matches Ok(AnyRead::Bool(x)) && x == b),
        d.spec_value() matches Value::Integer(i) ==> (r matches Ok(AnyRead::Integer(x)) && x == i),
        d.spec_value() is Nil ==> r matches Ok(AnyRead::Unit),
{
}

/// String keys sort bytewise: by the first differing byte, a proper prefix
/// first.
pub proof fn law_key_order_strings(x: crate::string::LuaString, y: crate::string::LuaString, i: int, null_id: ObjectId)
    requires
        0 <= i <= x@.len(),
        i <= y@.len(),
        x@.subrange(0, i) == y@.subrange(0, i),
        (i < x@.len() && i < y@.len() && x@[i] < y@[i]) || (i == x@.len() && i < y@.len()),
    ensures
        spec_key_order(Value::String(x), Value::String(y), null_id) < 0,
{
    crate::string::law_lex_compare_first_difference(x@, y@, i);
}

/// Keys of different kinds sort `nil` first, then `null`, booleans,
/// integers, strings, and the other values last.
pub proof fn law_key_order_kinds(b: bool, n: i64, s: crate::string::LuaString, other: Value, null_id: ObjectId)
    requires
        !(other is Nil) && !(other is Boolean) && !(other is Integer) && !(other is String),
        other != spec_null(null_id),
    ensures
        spec_key_order(Value::Nil, spec_null(null_id), null_id) < 0,
        spec_key_order(spec_null(null_id), Value::Boolean(b), null_id) < 0,
        spec_key_order(Value::Boolean(b), Value::Integer(n), null_id) < 0,
        spec_key_order(Value::Integer(n), Value::String(s), null_id) < 0,
        spec_key_order(Value::String(s), other, null_id) < 0,
{
}

/// With mixed-table detection, a table holding a key that is not a
/// positive integer reads as a map; a table of positive integer keys with
/// 10 entries or more reads as an array up to its largest key exactly when
/// it holds at least half of the indices up to it.
pub proof fn law_mixed_tables(table: Table, options: Options, array_metatable: ObjectId, max: u64, k: Key)
    requires
        table.wf(),
        options.detect_mixed_tables,
    ensures
        table@.contains_key(k) && !(k matches Key::Integer(i) && i >= 1) ==> spec_encode_as_array(
            table,
            options,
            array_metatable,
        ) is None,
        ({
            &&& table.spec_size() >= 10
            &&& max <= i64::MAX
            &&& forall|q: Key| #[trigger] table@.contains_key(q) ==> (q matches Key::Integer(i) && 1 <= i <= max)
            &&& table@.contains_key(Key::Integer(max as i64))
        }) ==> (spec_encode_as_array(table, options, array_metatable) == if table.spec_size() * 2 >= max {
            Some(max)
        } else {
            None
        }),
{
    if table.spec_size() >= 10 && max <= i64::MAX && (forall|q: Key| #[trigger] table@.contains_key(q) ==> (q matches Key::Integer(i)
        && 1 <= i <= max)) && table@.contains_key(Key::Integer(max as i64)) {
        assert(spec_is_max_index(table@, max));
        lemma_max_unique(table@, spec_max_index(table@), max);
    }
}

/// Without mixed-table detection, a table with a positive raw length reads
/// as an array of that length.
pub proof fn law_sequences_read_as_arrays(table: Table, options: Options, array_metatable: ObjectId)
    requires
        !options.detect_mixed_tables,
        table.spec_raw_len() > 0,
    ensures
        spec_encode_as_array(table, options, array_metatable) == Some(table.spec_raw_len() as u64),
{
}

/// Reading any value gives back a string as held: its text when it is
/// UTF-8, else its bytes.
pub proof fn law_any_reads_strings_as_held(
    d: Deserializer,
    table: Option<&Table>,
    array_metatable: ObjectId,
    r: Result<AnyRead, Error>,
)
    requires
        d.spec_reads_any(table, array_metatable, r),
        d.spec_value() is String,
    ensures
        valid_utf8(d.spec_value()->String_0@) ==> (r matches Ok(AnyRead::Str(t)) && t@ == decode_utf8(
            d.spec_value()->String_0@,
        )),
        !valid_utf8(d.spec_value()->String_0@) ==> (r matches Ok(AnyRead::Bytes(b)) && b@ == d.spec_value()->String_0@),
{
}

} // verus!
