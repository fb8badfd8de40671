//! Lua values as plain data.
//!
//! A reference-typed value (table, function, thread, userdata, buffer) is
//! carried by the identity of the object it refers to; the contents of such
//! objects are modelled by their own types (`Table`, `Buffer`, ...).
//! Floating-point numbers are not part of this model.

use vstd::prelude::*;
use crate::error::{Error, spec_same_error};
use crate::string::LuaString;

verus! {

/// The identity of a garbage-collected object (the address the VM gives it).
#[derive(Debug, Clone, Copy, PartialEq, Eq, Structural)]
pub struct ObjectId(pub u64);

/// A Lua light userdata: an opaque pointer-sized value.
#[derive(Debug, Clone, Copy, PartialEq, Eq, Structural)]
pub struct LightUserData(pub usize);

/// A Lua value.
#[derive(Debug)]
pub enum Value {
    Nil,
    Boolean(bool),
    LightUserData(LightUserData),
    Integer(i64),
    String(LuaString),
    Table(ObjectId),
    Function(ObjectId),
    Thread(ObjectId),
    UserData(ObjectId),
    Buffer(ObjectId),
    Error(Box<Error>),
}

/// The integer type of Lua values.
pub type Integer = i64;

/// Two values are the same value: strings by their bytes, errors by
/// [`spec_same_error`], everything else by equality.
pub open spec fn spec_same_value(a: Value, b: Value) -> bool {
    match a {
        Value::String(x) => b matches Value::String(y) && x@ == y@,
        Value::Error(x) => b matches Value::Error(y) && spec_same_error(*x, *y),
        _ => a == b,
    }
}

/// Values that are the same value stand for the same key.
pub proof fn lemma_same_value_key(a: Value, b: Value)
    requires
        spec_same_value(a, b),
    ensures
        crate::table::key_of(a) == crate::table::key_of(b),
{
}

/// Every value is the same value as itself.
pub proof fn lemma_same_value_reflexive(v: Value)
    ensures
        spec_same_value(v, v),
{
    if let Value::Error(e) = v {
        crate::error::lemma_same_error_reflexive(*e);
    }
}

impl Clone for Value {
    fn clone(&self) -> (r: Self)
        ensures
            spec_same_value(r, *self),
    {
        match self {
            Value::Nil => Value::Nil,
            Value::Boolean(b) => Value::Boolean(*b),
            Value::LightUserData(p) => Value::LightUserData(*p),
            Value::Integer(i) => Value::Integer(*i),
            Value::String(s) => Value::String(s.clone()),
            Value::Table(id) => Value::Table(*id),
            Value::Function(id) => Value::Function(*id),
            Value::Thread(id) => Value::Thread(*id),
            Value::UserData(id) => Value::UserData(*id),
            Value::Buffer(id) => Value::Buffer(*id),
            Value::Error(e) => Value::Error(Box::new((**e).clone())),
        }
    }
}

/// The Lua type name of a value.
pub open spec fn spec_lua_type_name(v: Value) -> &'static str {
    match v {
        Value::Nil => "nil",
        Value::Boolean(_) => "boolean",
        Value::LightUserData(_) => "lightuserdata",
        Value::Integer(_) => "integer",
        Value::String(_) => "string",
        Value::Table(_) => "table",
        Value::Function(_) => "function",
        Value::Thread(_) => "thread",
        Value::UserData(_) => "userdata",
        Value::Buffer(_) => "buffer",
        Value::Error(_) => "error",
    }
}

impl Value {
    /// Whether this is `nil`.
    pub fn is_nil(&self) -> (r: bool)
        ensures
            r == (*self is Nil),
    {
        matches!(self, Value::Nil)
    }

    /// The Lua type name of this value.
    pub fn lua_type_name(&self) -> (r: &'static str)
        ensures
            r == spec_lua_type_name(*self),
    {
        match self {
            Value::Nil => "nil",
            Value::Boolean(_) => "boolean",
            Value::LightUserData(_) => "lightuserdata",
            Value::Integer(_) => "integer",
            Value::String(_) => "string",
            Value::Table(_) => "table",
            Value::Function(_) => "function",
            Value::Thread(_) => "thread",
            Value::UserData(_) => "userdata",
            Value::Buffer(_) => "buffer",
            Value::Error(_) => "error",
        }
    }
}

} // verus!
