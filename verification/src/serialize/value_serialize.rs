//! Serializing Lua values through serde: what each value emits, and how a
//! table emits its elements or its entries.

use vstd::prelude::*;
use vstd::utf8::{valid_utf8, decode_utf8};
use crate::error::{Error, concat3};
use crate::serialize::de::{
    Deserializer, MapReader, MapStep, Options, ReadStep, SeqReader, encode_as_array, is_null, spec_encode_as_array,
    spec_map_start, spec_map_step, spec_seq_step, spec_slot,
};
use crate::serialize::ser::spec_null;
use crate::string::copy_bytes;
use crate::table::Table;
use crate::value::{ObjectId, Value, spec_lua_type_name, spec_same_value};

verus! {

/// A Lua value ready to be serialized, with options: the value, the options,
/// the tables being serialized around it and the VM's `null` table.
#[derive(Debug)]
pub struct SerializableValue {
    pub(crate) value: Value,
    pub(crate) options: Options,
    pub(crate) visited: Vec<ObjectId>,
    pub(crate) null_id: ObjectId,
}

impl Value {
    /// The value ready to be serialized with the default options, for the
    /// VM whose `null` is the table `null_id`.
    pub fn to_serializable(&self, null_id: ObjectId) -> (r: SerializableValue)
        ensures
            spec_same_value(r.spec_value(), *self),
            r.spec_options() == Options::new_spec(),
            r.spec_visited() == Seq::<ObjectId>::empty(),
            r.spec_null_id() == null_id,
    {
        SerializableValue { value: self.clone(), options: Options::new(), visited: Vec::new(), null_id }
    }
}

/// What serializing a value emits.
#[derive(Debug)]
pub enum Emit {
    /// `none` (the `null` value).
    Nothing,
    /// The unit value.
    Unit,
    /// A boolean.
    Bool(bool),
    /// An integer.
    Integer(i64),
    /// A string that is UTF-8 text, as text.
    Str(String),
    /// A string that is not UTF-8, as bytes.
    Bytes(Vec<u8>),
    /// The bytes of a buffer.
    BufferBytes(ObjectId),
    /// A table emitted as a sequence.
    Sequence(SerializableSeq),
    /// A table emitted as a map.
    Mapping(SerializableMap),
}

/// A serialization error carrying the reason of a refused item.
fn refusal(e: Error) -> (r: Error)
    ensures
        e matches Error::DeserializeError(m) ==> (r matches Error::SerializeError(x) && x@ == m@),
{
    match e {
        Error::DeserializeError(m) => Error::SerializeError(m),
        other => other,
    }
}

impl SerializableValue {
    /// The value.
    pub closed spec fn spec_value(&self) -> Value {
        self.value
    }

    /// The options.
    pub closed spec fn spec_options(&self) -> Options {
        self.options
    }

    /// The tables being serialized around the value.
    pub closed spec fn spec_visited(&self) -> Seq<ObjectId> {
        self.visited@
    }

    /// The `null` table.
    pub closed spec fn spec_null_id(&self) -> ObjectId {
        self.null_id
    }

    /// The value.
    pub fn value(&self) -> (r: &Value)
        ensures
            *r == self.spec_value(),
    {
        &self.value
    }

    /// The same, refusing (or skipping) functions, threads, userdata and errors.
    pub fn deny_unsupported_types(self, enabled: bool) -> (r: SerializableValue)
        ensures
            r.spec_value() == self.spec_value(),
            r.spec_options() == (Options { deny_unsupported_types: enabled, ..self.spec_options() }),
            r.spec_visited() == self.spec_visited(),
            r.spec_null_id() == self.spec_null_id(),
    {
        let options = self.options.deny_unsupported_types(enabled);
        SerializableValue { value: self.value, options, visited: self.visited, null_id: self.null_id }
    }

    /// The same, refusing (or skipping) a table met again inside itself.
    pub fn deny_recursive_tables(self, enabled: bool) -> (r: SerializableValue)
        ensures
            r.spec_value() == self.spec_value(),
            r.spec_options() == (Options { deny_recursive_tables: enabled, ..self.spec_options() }),
            r.spec_visited() == self.spec_visited(),
            r.spec_null_id() == self.spec_null_id(),
    {
        let options = self.options.deny_recursive_tables(enabled);
        SerializableValue { value: self.value, options, visited: self.visited, null_id: self.null_id }
    }

    /// The same, emitting map keys in sorted order (or not).
    pub fn sort_keys(self, enabled: bool) -> (r: SerializableValue)
        ensures
            r.spec_value() == self.spec_value(),
            r.spec_options() == (Options { sort_keys: enabled, ..self.spec_options() }),
            r.spec_visited() == self.spec_visited(),
            r.spec_null_id() == self.spec_null_id(),
    {
        let options = self.options.sort_keys(enabled);
        SerializableValue { value: self.value, options, visited: self.visited, null_id: self.null_id }
    }

    /// The same, emitting empty tables as empty sequences (or not).
    pub fn encode_empty_tables_as_array(self, enabled: bool) -> (r: SerializableValue)
        ensures
            r.spec_value() == self.spec_value(),
            r.spec_options() == (Options { encode_empty_tables_as_array: enabled, ..self.spec_options() }),
            r.spec_visited() == self.spec_visited(),
            r.spec_null_id() == self.spec_null_id(),
    {
        let options = self.options.encode_empty_tables_as_array(enabled);
        SerializableValue { value: self.value, options, visited: self.visited, null_id: self.null_id }
    }

    /// The same, emitting dense positive-integer-keyed tables as sequences
    /// (or not).
    pub fn detect_mixed_tables(self, enabled: bool) -> (r: SerializableValue)
        ensures
            r.spec_value() == self.spec_value(),
            r.spec_options() == (Options { detect_mixed_tables: enabled, ..self.spec_options() }),
            r.spec_visited() == self.spec_visited(),
            r.spec_null_id() == self.spec_null_id(),
    {
        let options = self.options.detect_mixed_tables(enabled);
        SerializableValue { value: self.value, options, visited: self.visited, null_id: self.null_id }
    }

    /// What serializing the value emits (see [`SerializableValue::emit`]).
    pub open spec fn spec_emits(&self, table: Option<&Table>, array_metatable: ObjectId, r: Result<Emit, Error>) -> bool {
        if self.spec_value() == spec_null(self.spec_null_id()) {
            r matches Ok(Emit::Nothing)
        } else {
            match self.spec_value() {
                Value::Nil => r matches Ok(Emit::Unit),
                Value::Boolean(b) => r matches Ok(Emit::Bool(x)) && x == b,
                Value::Integer(i) => r matches Ok(Emit::Integer(x)) && x == i,
                Value::String(s) => if valid_utf8(s@) {
                    r matches Ok(Emit::Str(t)) && t@ == decode_utf8(s@)
                } else {
                    r matches Ok(Emit::Bytes(b)) && b@ == s@
                },
                Value::Table(id) => table matches Some(t) && match spec_encode_as_array(
                    *t,
                    self.spec_options(),
                    array_metatable,
                ) {
                    Some(n) => r matches Ok(Emit::Sequence(q)) && q.spec_reader().wf() && q.spec_reader().spec_table() == id
                        && q.spec_reader().spec_index() == 1 && q.spec_reader().spec_len() == n
                        && q.spec_reader().spec_options() == self.spec_options()
                        && q.spec_reader().spec_visited() == self.spec_visited().push(id)
                        && q.spec_reader().spec_null_id() == self.spec_null_id(),
                    None => r matches Ok(Emit::Mapping(m)) && spec_map_start(
                        m.spec_reader(),
                        id,
                        *t,
                        self.spec_options(),
                        self.spec_visited(),
                        self.spec_null_id(),
                    ),
                },
                Value::Buffer(id) => r matches Ok(Emit::BufferBytes(x)) && x == id,
                _ => if self.spec_options().deny_unsupported_types {
                    r matches Err(Error::SerializeError(m)) && m@ == "cannot serialize <"@ + spec_lua_type_name(
                        self.spec_value(),
                    )@ + ">"@
                } else {
                    r matches Ok(Emit::Unit)
                },
            }
        }
    }

    /// What serializing the value emits: `null` as none, `nil` as unit,
    /// booleans, integers, strings (as text when UTF-8, else as bytes), a
    /// table as a sequence or a map (see [`spec_encode_as_array`]), a buffer
    /// as its bytes; a function, thread, light userdata, userdata or error is
    /// refused, or emitted as unit when such values are not refused. `table`
    /// is the table serialized, `array_metatable` the metatable that marks
    /// arrays.
    pub fn emit(&self, table: Option<&Table>, array_metatable: ObjectId) -> (r: Result<Emit, Error>)
        requires
            self.spec_value() matches Value::Table(id) ==> (id != self.spec_null_id() ==> (table matches Some(t) && t.wf()
                && t.spec_id() == id)),
        ensures
            self.spec_emits(table, array_metatable, r),
    {
        if is_null(&self.value, self.null_id) {
            return Ok(Emit::Nothing);
        }
        match &self.value {
            Value::Nil => Ok(Emit::Unit),
            Value::Boolean(b) => Ok(Emit::Bool(*b)),
            Value::Integer(i) => Ok(Emit::Integer(*i)),
            Value::String(s) => match s.to_str() {
                Ok(text) => Ok(Emit::Str(text)),
                Err(_) => Ok(Emit::Bytes(copy_bytes(s.as_bytes()))),
            },
            Value::Table(id) => match table {
                Some(t) => {
                    let visited = crate::serialize::de::copy_ids(&self.visited);
                    let at = Deserializer::from_parts(Value::Table(*id), self.options, visited, self.null_id);
                    match encode_as_array(t, self.options, array_metatable) {
                        Some(n) => {
                            proof {
                                crate::serialize::de::lemma_encoded_len_fits(*t, self.options, array_metatable);
                            }
                            Ok(Emit::Sequence(SerializableSeq { reader: at.seq_reader(*id, n) }))
                        },
                        None => Ok(Emit::Mapping(SerializableMap { reader: at.map_reader(*id, t) })),
                    }
                },
                None => Ok(Emit::Unit),
            },
            Value::Buffer(id) => Ok(Emit::BufferBytes(*id)),
            _ => {
                if self.options.deny_unsupported_types {
                    Err(Error::SerializeError(concat3("cannot serialize <", self.value.lua_type_name(), ">")))
                } else {
                    Ok(Emit::Unit)
                }
            },
        }
    }
}

/// A value to serialize, made from a reader's value and its context.
fn serializable_of(d: Deserializer) -> (r: SerializableValue)
    ensures
        r.spec_value() == d.spec_value(),
        r.spec_options() == d.spec_options(),
        r.spec_visited() == d.spec_visited(),
        r.spec_null_id() == d.spec_null_id(),
{
    let options = d.options();
    let null_id = d.null_id();
    let visited = d.visited_ids();
    SerializableValue { value: d.into_value(), options, visited, null_id }
}

/// A table being emitted as a sequence: the slots `1..=len`, skipping the
/// values that are skipped.
#[derive(Debug)]
pub struct SerializableSeq {
    pub(crate) reader: SeqReader,
}

impl SerializableSeq {
    /// The position in the table.
    pub closed spec fn spec_reader(&self) -> SeqReader {
        self.reader
    }

    /// The number of slots emitted (some may be skipped).
    pub fn len(&self) -> (r: u64)
        ensures
            r == self.spec_reader().spec_len(),
    {
        self.reader.len()
    }

    /// The table emitted.
    pub fn table(&self) -> (r: ObjectId)
        ensures
            r == self.spec_reader().spec_table(),
    {
        self.reader.table()
    }

    /// The next element to emit, or none at the end; a refused value is an
    /// error. `table` is the table emitted.
    pub fn next_element(&mut self, table: &Table) -> (r: Result<Option<SerializableValue>, Error>)
        requires
            old(self).spec_reader().wf(),
            table.wf(),
            table.spec_id() == old(self).spec_reader().spec_table(),
        ensures
            final(self).spec_reader().wf(),
            final(self).spec_reader().spec_table() == old(self).spec_reader().spec_table(),
            final(self).spec_reader().spec_len() == old(self).spec_reader().spec_len(),
            final(self).spec_reader().spec_options() == old(self).spec_reader().spec_options(),
            final(self).spec_reader().spec_visited() == old(self).spec_reader().spec_visited(),
            final(self).spec_reader().spec_null_id() == old(self).spec_reader().spec_null_id(),
            match spec_seq_step(
                *table,
                old(self).spec_reader().spec_index(),
                old(self).spec_reader().spec_len(),
                old(self).spec_reader().spec_options(),
                old(self).spec_reader().spec_visited(),
                old(self).spec_reader().spec_null_id(),
            ) {
                ReadStep::End(i) => r matches Ok(None) && final(self).spec_reader().spec_index() == i,
                ReadStep::Found(i) => r matches Ok(Some(v)) && final(self).spec_reader().spec_index() == i + 1
                    && spec_same_value(v.spec_value(), spec_slot(*table, i))
                    && v.spec_options() == old(self).spec_reader().spec_options()
                    && v.spec_visited() == old(self).spec_reader().spec_visited()
                    && v.spec_null_id() == old(self).spec_reader().spec_null_id(),
                ReadStep::Refused(i, m) => r matches Err(Error::SerializeError(s)) && s@ == m@
                    && final(self).spec_reader().spec_index() == i + 1,
            },
    {
        match self.reader.next_element(table) {
            Ok(Some(d)) => Ok(Some(serializable_of(d))),
            Ok(None) => Ok(None),
            Err(e) => Err(refusal(e)),
        }
    }
}

/// A table being emitted as a map: its entries (sorted by key when keys are
/// sorted), skipping those whose key or value is skipped.
#[derive(Debug)]
pub struct SerializableMap {
    pub(crate) reader: MapReader,
}

impl SerializableMap {
    /// The position in the table's entries.
    pub closed spec fn spec_reader(&self) -> MapReader {
        self.reader
    }

    /// The next entry to emit, or none at the end; a refused key or value is
    /// an error.
    pub fn next_entry(&mut self) -> (r: Result<Option<(SerializableValue, SerializableValue)>, Error>)
        requires
            old(self).spec_reader().wf(),
            old(self).spec_reader().spec_pending() is None,
        ensures
            final(self).spec_reader().wf(),
            final(self).spec_reader().spec_pending() is None,
            final(self).spec_reader().spec_table() == old(self).spec_reader().spec_table(),
            final(self).spec_reader().spec_options() == old(self).spec_reader().spec_options(),
            final(self).spec_reader().spec_visited() == old(self).spec_reader().spec_visited(),
            final(self).spec_reader().spec_null_id() == old(self).spec_reader().spec_null_id(),
            match spec_map_step(
                old(self).spec_reader().spec_pairs(),
                old(self).spec_reader().spec_options(),
                old(self).spec_reader().spec_visited(),
                old(self).spec_reader().spec_null_id(),
            ) {
                MapStep::End => r matches Ok(None) && final(self).spec_reader().spec_pairs().len() == 0,
                MapStep::Found(k, v, rest) => r matches Ok(Some(e)) && e.0.spec_value() == k && e.1.spec_value() == v
                    && e.0.spec_options() == old(self).spec_reader().spec_options()
                    && e.1.spec_options() == old(self).spec_reader().spec_options()
                    && e.0.spec_visited() == old(self).spec_reader().spec_visited()
                    && e.1.spec_visited() == old(self).spec_reader().spec_visited()
                    && e.0.spec_null_id() == old(self).spec_reader().spec_null_id()
                    && e.1.spec_null_id() == old(self).spec_reader().spec_null_id()
                    && final(self).spec_reader().spec_pairs() == rest,
                MapStep::Refused(m, rest) => r matches Err(Error::SerializeError(s)) && s@ == m@
                    && final(self).spec_reader().spec_pairs() == rest,
            },
    {
        match self.reader.next_key() {
            Ok(Some(k)) => match self.reader.next_value() {
                Ok(v) => Ok(Some((serializable_of(k), serializable_of(v)))),
                Err(e) => Err(e),
            },
            Ok(None) => Ok(None),
            Err(e) => Err(refusal(e)),
        }
    }
}

} // verus!
