//! Conversions between Rust values and Lua values: the rules of truthiness,
//! of integer ranges, of strings and of optional and multiple values.

use vstd::prelude::*;
use vstd::string::{StrSliceExecFns, StringSliceAdditionalSpecFns};
use crate::error::{Error, spec_decimal};
use crate::function::Function;
use crate::multi::{MultiValue, Variadic};
use crate::state::Lua;
use crate::string::{LuaString, create_string, spec_is_utf8_error};
use vstd::utf8::{valid_utf8, decode_utf8};
use crate::traits::{FromLua, FromLuaMulti, IntoLua, IntoLuaMulti};
use crate::value::{LightUserData, ObjectId, Value, spec_lua_type_name};

verus! {

/// The error of converting a Lua value into the Rust type `to`.
pub open spec fn spec_from_error(e: Error, from: &'static str, to: Seq<char>, message: Option<Seq<char>>) -> bool {
    e matches Error::FromLuaConversionError { from: f, to: t, message: m } && f == from && t@ == to && match message {
        Some(x) => m matches Some(y) && y@ == x,
        None => m is None,
    }
}

/// The error of a value of a type that does not convert: it names the
/// value's type.
pub fn unsupported(value: &Value, to: &str) -> (e: Error)
    ensures
        spec_from_error(e, spec_lua_type_name(*value), to@, None),
{
    Error::FromLuaConversionError { from: value.lua_type_name(), to: to.to_owned(), message: None }
}

/// A value as a boolean, by Lua truthiness: `nil` and `false` are false,
/// every other value is true; an error value is passed on.
pub fn bool_from_lua(value: Value) -> (r: Result<bool, Error>)
    ensures
        value matches Value::Error(e) ==> r == Err::<bool, Error>(*e),
        !(value is Error) ==> r == Ok::<bool, Error>(!(value is Nil || value == Value::Boolean(false))),
{
    match value {
        Value::Error(e) => Err(*e),
        Value::Nil => Ok(false),
        Value::Boolean(b) => Ok(b),
        _ => Ok(true),
    }
}

/// How a value reads as an integer: done, or (for a string) by the VM's
/// reading of numbers, which the caller does.
#[derive(Debug)]
pub enum IntRead {
    /// The integer.
    Done(i64),
    /// A string, to be read as a number.
    FromString(LuaString),
}

/// The error of an integer out of the range of the target type.
pub open spec fn spec_out_of_range(e: Error, to: Seq<char>) -> bool {
    spec_from_error(e, "number", to, Some("out of range"@))
}

/// Reads a value as an integer of the range `lo..=hi` (the target type
/// `to`): an integer in range converts, one out of range is refused; a
/// string is left to the number reading of the VM; an error value is passed
/// on; any other value is refused by its type.
pub fn int_from_lua(value: Value, lo: i64, hi: i64, to: &'static str) -> (r: Result<IntRead, Error>)
    ensures
        value matches Value::Error(e) ==> r == Err::<IntRead, Error>(*e),
        value matches Value::Integer(i) ==> (lo <= i <= hi ==> (r matches Ok(IntRead::Done(x)) && x == i)),
        value matches Value::Integer(i) ==> (!(lo <= i <= hi) ==> (r matches Err(e) && spec_out_of_range(e, to@))),
        value matches Value::String(s) ==> (r matches Ok(IntRead::FromString(x)) && x@ == s@),
        !(value is Error || value is Integer || value is String) ==> (r matches Err(e) && spec_from_error(
            e,
            spec_lua_type_name(value),
            to@,
            None,
        )),
{
    match value {
        Value::Error(e) => Err(*e),
        Value::Integer(i) => {
            if lo <= i && i <= hi {
                Ok(IntRead::Done(i))
            } else {
                Err(Error::FromLuaConversionError {
                    from: "number",
                    to: to.to_owned(),
                    message: Some("out of range".to_owned()),
                })
            }
        },
        Value::String(s) => Ok(IntRead::FromString(s)),
        other => Err(unsupported(&other, to)),
    }
}

/// The error of an integer that does not fit Lua's integers.
pub open spec fn spec_into_range_error(e: Error, from: &'static str) -> bool {
    e matches Error::ToLuaConversionError { from: f, to: t, message: m } && f == from && t@ == "integer"@
        && (m matches Some(x) && x@ == "value out of i64 range"@)
}

/// An unsigned integer as a Lua integer: refused above `i64::MAX`.
pub fn u64_into_lua(v: u64, from: &'static str) -> (r: Result<Value, Error>)
    ensures
        v <= i64::MAX ==> r == Ok::<Value, Error>(Value::Integer(v as i64)),
        v > i64::MAX ==> (r matches Err(e) && spec_into_range_error(e, from)),
{
    if v <= 0x7fff_ffff_ffff_ffff {
        Ok(Value::Integer(v as i64))
    } else {
        Err(Error::ToLuaConversionError {
            from,
            to: "integer",
            message: Some("value out of i64 range".to_owned()),
        })
    }
}

/// A value as a Lua string: a string as it is, an integer by its decimal
/// text; an error value is passed on; any other value is refused.
pub fn lua_string_from_lua(value: Value) -> (r: Result<LuaString, Error>)
    ensures
        value matches Value::Error(e) ==> r == Err::<LuaString, Error>(*e),
        value matches Value::String(s) ==> (r matches Ok(x) && x@ == s@),
        value matches Value::Integer(i) ==> (r matches Ok(x) && x@ == spec_utf8_bytes(spec_decimal(i as int))),
        !(value is Error || value is String || value is Integer) ==> (r matches Err(e) && spec_from_error(
            e,
            spec_lua_type_name(value),
            "String"@,
            None,
        )),
{
    match value {
        Value::Error(e) => Err(*e),
        Value::String(s) => Ok(s),
        Value::Integer(i) => {
            let text = crate::error::decimal(i);
            Ok(create_string(string_bytes(&text)))
        },
        other => Err(unsupported(&other, "String")),
    }
}

/// What converting a Lua value to a Rust `String` gives: a UTF-8 string its
/// text (not UTF-8: the decoding error), an integer its decimal text, an
/// error value itself; any other value is refused.
pub open spec fn spec_string_from(value: Value, r: Result<String, Error>) -> bool {
    match value {
        Value::Error(e) => r == Err::<String, Error>(*e),
        Value::String(s) => if valid_utf8(s@) {
            r matches Ok(t) && t@ == decode_utf8(s@)
        } else {
            r matches Err(e) && spec_is_utf8_error(e, s@)
        },
        Value::Integer(i) => r matches Ok(t) && t@ == spec_decimal(i as int),
        _ => r matches Err(e) && spec_from_error(e, spec_lua_type_name(value), "String"@, None),
    }
}

/// A value as a Rust `String` (see [`spec_string_from`]).
pub fn string_from_lua(value: Value) -> (r: Result<String, Error>)
    ensures
        spec_string_from(value, r),
{
    match value {
        Value::Error(e) => Err(*e),
        Value::String(s) => s.to_str(),
        Value::Integer(i) => Ok(crate::error::decimal(i)),
        other => Err(unsupported(&other, "String")),
    }
}

/// The UTF-8 bytes of a text.
pub open spec fn spec_utf8_bytes(s: Seq<char>) -> Seq<u8> {
    vstd::utf8::encode_utf8(s)
}

/// The bytes of a string.
fn string_bytes(s: &String) -> (r: &[u8])
    ensures
        r@ == spec_utf8_bytes(s@),
{
    let t = s.as_str();
    t.as_bytes()
}

impl IntoLua for Value {
    fn into_lua(self, lua: &Lua) -> (r: Result<Value, Error>)
        ensures
            r == Ok::<Value, Error>(self),
    {
        Ok(self)
    }
}

impl FromLua for Value {
    fn from_lua(value: Value, lua: &Lua) -> (r: Result<Value, Error>)
        ensures
            r == Ok::<Value, Error>(value),
    {
        Ok(value)
    }
}

impl IntoLua for bool {
    fn into_lua(self, lua: &Lua) -> (r: Result<Value, Error>)
        ensures
            r == Ok::<Value, Error>(Value::Boolean(self)),
    {
        Ok(Value::Boolean(self))
    }
}

impl FromLua for bool {
    fn from_lua(value: Value, lua: &Lua) -> (r: Result<bool, Error>)
        ensures
            value matches Value::Error(e) ==> r == Err::<bool, Error>(*e),
            !(value is Error) ==> r == Ok::<bool, Error>(!(value is Nil || value == Value::Boolean(false))),
    {
        bool_from_lua(value)
    }
}

impl IntoLua for i64 {
    fn into_lua(self, lua: &Lua) -> (r: Result<Value, Error>)
        ensures
            r == Ok::<Value, Error>(Value::Integer(self)),
    {
        Ok(Value::Integer(self))
    }
}

impl IntoLua for i32 {
    fn into_lua(self, lua: &Lua) -> (r: Result<Value, Error>)
        ensures
            r == Ok::<Value, Error>(Value::Integer(self as i64)),
    {
        Ok(Value::Integer(self as i64))
    }
}

impl IntoLua for i16 {
    fn into_lua(self, lua: &Lua) -> (r: Result<Value, Error>)
        ensures
            r == Ok::<Value, Error>(Value::Integer(self as i64)),
    {
        Ok(Value::Integer(self as i64))
    }
}

impl IntoLua for i8 {
    fn into_lua(self, lua: &Lua) -> (r: Result<Value, Error>)
        ensures
            r == Ok::<Value, Error>(Value::Integer(self as i64)),
    {
        Ok(Value::Integer(self as i64))
    }
}

impl IntoLua for u32 {
    fn into_lua(self, lua: &Lua) -> (r: Result<Value, Error>)
        ensures
            r == Ok::<Value, Error>(Value::Integer(self as i64)),
    {
        Ok(Value::Integer(self as i64))
    }
}

impl IntoLua for u16 {
    fn into_lua(self, lua: &Lua) -> (r: Result<Value, Error>)
        ensures
            r == Ok::<Value, Error>(Value::Integer(self as i64)),
    {
        Ok(Value::Integer(self as i64))
    }
}

impl IntoLua for u8 {
    fn into_lua(self, lua: &Lua) -> (r: Result<Value, Error>)
        ensures
            r == Ok::<Value, Error>(Value::Integer(self as i64)),
    {
        Ok(Value::Integer(self as i64))
    }
}

impl IntoLua for u64 {
    fn into_lua(self, lua: &Lua) -> (r: Result<Value, Error>)
        ensures
            self <= i64::MAX ==> r == Ok::<Value, Error>(Value::Integer(self as i64)),
            self > i64::MAX ==> (r matches Err(e) && spec_into_range_error(e, "u64")),
    {
        u64_into_lua(self, "u64")
    }
}

impl IntoLua for usize {
    fn into_lua(self, lua: &Lua) -> (r: Result<Value, Error>)
        ensures
            self <= i64::MAX ==> r == Ok::<Value, Error>(Value::Integer(self as i64)),
            self > i64::MAX ==> (r matches Err(e) && spec_into_range_error(e, "usize")),
    {
        u64_into_lua(self as u64, "usize")
    }
}

impl IntoLua for LuaString {
    fn into_lua(self, lua: &Lua) -> (r: Result<Value, Error>)
        ensures
            r matches Ok(Value::String(s)) && s@ == self@,
    {
        Ok(Value::String(self))
    }
}

impl FromLua for LuaString {
    fn from_lua(value: Value, lua: &Lua) -> (r: Result<LuaString, Error>)
        ensures
            value matches Value::Error(e) ==> r == Err::<LuaString, Error>(*e),
            value matches Value::String(s) ==> (r matches Ok(x) && x@ == s@),
            value matches Value::Integer(i) ==> (r matches Ok(x) && x@ == spec_utf8_bytes(spec_decimal(i as int))),
    {
        lua_string_from_lua(value)
    }
}

impl IntoLua for String {
    fn into_lua(self, lua: &Lua) -> (r: Result<Value, Error>)
        ensures
            r matches Ok(Value::String(s)) && s@ == spec_utf8_bytes(self@),
    {
        Ok(Value::String(create_string(string_bytes(&self))))
    }
}

impl IntoLua for &str {
    fn into_lua(self, lua: &Lua) -> (r: Result<Value, Error>)
        ensures
            r matches Ok(Value::String(s)) && s@ == spec_utf8_bytes(self@),
    {
        Ok(Value::String(create_string(self.as_bytes())))
    }
}

impl FromLua for String {
    fn from_lua(value: Value, lua: &Lua) -> (r: Result<String, Error>)
        ensures
            spec_string_from(value, r),
    {
        string_from_lua(value)
    }
}

/// Whether a number is a Unicode scalar value (a code point that is not a
/// surrogate).
pub open spec fn spec_is_scalar(i: int) -> bool {
    (0 <= i <= 0xD7FF) || (0xE000 <= i <= 0x10FFFF)
}

/// The character of a code point, none when it is not a Unicode scalar
/// value (std's `char::from_u32`).
#[verifier::external_body]
fn char_from_u32(c: u32) -> (r: Option<char>)
    ensures
        spec_is_scalar(c as int) ==> r == Some(c as char),
        !spec_is_scalar(c as int) ==> r is None,
{
    char::from_u32(c)
}

/// The text made of one character (std's `ToString` for `char`).
#[verifier::external_body]
fn char_text(c: char) -> (r: String)
    ensures
        r@ == seq![c],
{
    c.to_string()
}

/// What converting a Lua value to a `char` gives: an integer that is a
/// Unicode scalar value its character; a string of exactly one character
/// that character; an error value itself; anything else is refused.
pub open spec fn spec_char_from(value: Value, r: Result<char, Error>) -> bool {
    match value {
        Value::Error(e) => r == Err::<char, Error>(*e),
        Value::Integer(i) => if spec_is_scalar(i as int) {
            r == Ok::<char, Error>(i as char)
        } else {
            r matches Err(e) && spec_from_error(e, "number", "char"@, Some("integer out of range for a unicode char"@))
        },
        Value::String(s) => if !valid_utf8(s@) {
            r matches Err(e) && spec_is_utf8_error(e, s@)
        } else if decode_utf8(s@).len() == 1 {
            r == Ok::<char, Error>(decode_utf8(s@)[0])
        } else {
            r matches Err(e) && spec_from_error(e, "string", "char"@, Some("expected string to have exactly one char"@))
        },
        _ => r matches Err(e) && spec_from_error(
            e,
            spec_lua_type_name(value),
            "char"@,
            Some("expected string or integer"@),
        ),
    }
}

/// A value as a `char` (see [`spec_char_from`]).
pub fn char_from_lua(value: Value) -> (r: Result<char, Error>)
    ensures
        spec_char_from(value, r),
{
    match value {
        Value::Error(e) => Err(*e),
        Value::Integer(i) => {
            let cp = if 0 <= i && i <= 0xFFFF_FFFF {
                char_from_u32(i as u32)
            } else {
                None
            };
            match cp {
                Some(c) => Ok(c),
                None => Err(Error::FromLuaConversionError {
                    from: "number",
                    to: "char".to_owned(),
                    message: Some("integer out of range for a unicode char".to_owned()),
                }),
            }
        },
        Value::String(s) => {
            let text = match s.to_str() {
                Ok(t) => t,
                Err(e) => {
                    return Err(e);
                },
            };
            let t = text.as_str();
            if t.unicode_len() == 1 {
                Ok(t.get_char(0))
            } else {
                Err(Error::FromLuaConversionError {
                    from: "string",
                    to: "char".to_owned(),
                    message: Some("expected string to have exactly one char".to_owned()),
                })
            }
        },
        other => Err(Error::FromLuaConversionError {
            from: other.lua_type_name(),
            to: "char".to_owned(),
            message: Some("expected string or integer".to_owned()),
        }),
    }
}

impl IntoLua for char {
    fn into_lua(self, lua: &Lua) -> (r: Result<Value, Error>)
        ensures
            r matches Ok(Value::String(s)) && s@ == spec_utf8_bytes(seq![self]),
    {
        let t = char_text(self);
        Ok(Value::String(create_string(string_bytes(&t))))
    }
}

impl FromLua for char {
    fn from_lua(value: Value, lua: &Lua) -> (r: Result<char, Error>)
        ensures
            spec_char_from(value, r),
    {
        char_from_lua(value)
    }
}

impl IntoLua for Function {
    fn into_lua(self, lua: &Lua) -> (r: Result<Value, Error>)
        ensures
            r == Ok::<Value, Error>(Value::Function(self.id)),
    {
        Ok(Value::Function(self.id))
    }
}

impl FromLua for Function {
    fn from_lua(value: Value, lua: &Lua) -> (r: Result<Function, Error>)
        ensures
            value matches Value::Error(e) ==> r == Err::<Function, Error>(*e),
            value matches Value::Function(id) ==> r == Ok::<Function, Error>(Function { id }),
            !(value is Error || value is Function) ==> (r matches Err(e) && spec_from_error(
                e,
                spec_lua_type_name(value),
                "Function"@,
                None,
            )),
    {
        match value {
            Value::Error(e) => Err(*e),
            Value::Function(id) => Ok(Function { id }),
            other => Err(unsupported(&other, "Function")),
        }
    }
}

impl IntoLua for LightUserData {
    fn into_lua(self, lua: &Lua) -> (r: Result<Value, Error>)
        ensures
            r == Ok::<Value, Error>(Value::LightUserData(self)),
    {
        Ok(Value::LightUserData(self))
    }
}

impl FromLua for LightUserData {
    fn from_lua(value: Value, lua: &Lua) -> (r: Result<LightUserData, Error>)
        ensures
            value matches Value::Error(e) ==> r == Err::<LightUserData, Error>(*e),
            value matches Value::LightUserData(p) ==> r == Ok::<LightUserData, Error>(p),
            !(value is Error || value is LightUserData) ==> (r matches Err(e) && spec_from_error(
                e,
                spec_lua_type_name(value),
                "LightUserData"@,
                None,
            )),
    {
        match value {
            Value::Error(e) => Err(*e),
            Value::LightUserData(p) => Ok(p),
            other => Err(unsupported(&other, "LightUserData")),
        }
    }
}

impl IntoLua for Error {
    fn into_lua(self, lua: &Lua) -> (r: Result<Value, Error>)
        ensures
            r matches Ok(Value::Error(e)) && *e == self,
    {
        Ok(Value::Error(Box::new(self)))
    }
}

impl<T: IntoLua> IntoLua for Option<T> {
    fn into_lua(self, lua: &Lua) -> (r: Result<Value, Error>)
        ensures
            self is None ==> r == Ok::<Value, Error>(Value::Nil),
            self matches Some(v) ==> call_ensures(T::into_lua, (v, lua), r),
    {
        match self {
            Some(v) => v.into_lua(lua),
            None => Ok(Value::Nil),
        }
    }
}

impl<T: FromLua> FromLua for Option<T> {
    fn from_lua(value: Value, lua: &Lua) -> (r: Result<Option<T>, Error>)
        ensures
            value is Nil ==> (r matches Ok(x) && x is None),
            !(value is Nil) ==> exists|inner: Result<T, Error>| {
                &&& call_ensures(T::from_lua, (value, lua), inner)
                &&& inner matches Ok(x) ==> r == Ok::<Option<T>, Error>(Some(x))
                &&& inner matches Err(e) ==> r == Err::<Option<T>, Error>(e)
            },
    {
        match value {
            Value::Nil => Ok(None),
            other => {
                let inner = T::from_lua(other, lua);
                let ghost g = inner;
                match inner {
                    Ok(v) => {
                        assert(g matches Ok(x) && x == v);
                        Ok(Some(v))
                    },
                    Err(e) => Err(e),
                }
            },
        }
    }
}

impl IntoLuaMulti for MultiValue {
    fn into_lua_multi(self, lua: &Lua) -> (r: Result<MultiValue, Error>)
        ensures
            r matches Ok(m) && m@ == self@,
    {
        Ok(self)
    }
}

impl FromLuaMulti for MultiValue {
    fn from_lua_multi(values: MultiValue, lua: &Lua) -> (r: Result<MultiValue, Error>)
        ensures
            r matches Ok(m) && m@ == values@,
    {
        Ok(values)
    }
}

impl IntoLuaMulti for () {
    fn into_lua_multi(self, lua: &Lua) -> (r: Result<MultiValue, Error>)
        ensures
            r matches Ok(m) && m@ == Seq::<Value>::empty(),
    {
        Ok(MultiValue::new())
    }
}

impl FromLuaMulti for () {
    fn from_lua_multi(values: MultiValue, lua: &Lua) -> (r: Result<(), Error>)
        ensures
            r is Ok,
    {
        Ok(())
    }
}

impl FromLuaMulti for Value {
    fn from_lua_multi(values: MultiValue, lua: &Lua) -> (r: Result<Value, Error>)
        ensures
            values@.len() > 0 ==> r == Ok::<Value, Error>(values@[0]),
            values@.len() == 0 ==> r == Ok::<Value, Error>(Value::Nil),
    {
        let mut values = values;
        match values.pop_front() {
            Some(v) => Ok(v),
            None => Ok(Value::Nil),
        }
    }
}

impl IntoLuaMulti for Value {
    fn into_lua_multi(self, lua: &Lua) -> (r: Result<MultiValue, Error>)
        ensures
            r matches Ok(m) && m@ == seq![self],
    {
        let mut m = MultiValue::with_capacity(1);
        m.push_back(self);
        Ok(m)
    }
}

/// Converting the items in order, stopping at the first error, ends with
/// `r`: every item converts and `r` holds the converted values in order, or
/// `r` is the error of an item after which none is converted and before
/// which all converted.
pub open spec fn spec_items_into_lua<T: IntoLua>(items: Seq<T>, lua: &Lua, r: Result<MultiValue, Error>) -> bool {
    match r {
        Ok(m) => m@.len() == items.len() && forall|i: int| 0 <= i < items.len() ==> call_ensures(
            T::into_lua,
            (#[trigger] items[i], lua),
            Ok::<Value, Error>(m@[i]),
        ),
        Err(e) => exists|i: int| {
            &&& 0 <= i < items.len()
            &&& call_ensures(T::into_lua, (#[trigger] items[i], lua), Err::<Value, Error>(e))
            &&& forall|j: int| 0 <= j < i ==> exists|v: Value| call_ensures(
                T::into_lua,
                (#[trigger] items[j], lua),
                Ok::<Value, Error>(v),
            )
        },
    }
}

impl<T: IntoLua> IntoLuaMulti for Variadic<T> {
    fn into_lua_multi(self, lua: &Lua) -> (r: Result<MultiValue, Error>)
        ensures
            spec_items_into_lua(self@, lua, r),
    {
        let items = self.into_vec();
        let ghost all = items@;
        let mut queue = crate::table::into_queue(items);
        let mut m = MultiValue::new();
        let ghost mut done: int = 0;
        while queue.len() > 0
            invariant
                0 <= done <= all.len(),
                all == self@,
                queue@ == all.subrange(done, all.len() as int),
                m@.len() == done,
                forall|i: int| 0 <= i < done ==> call_ensures(T::into_lua, (#[trigger] all[i], lua), Ok::<Value, Error>(m@[i])),
            decreases queue.len(),
        {
            let item = match queue.pop_front() {
                Some(x) => x,
                None => {
                    return Ok(m);
                },
            };
            assert(item == all[done]);
            match item.into_lua(lua) {
                Ok(v) => {
                    let ghost before = m@;
                    m.push_back(v);
                    proof {
                        assert forall|i: int| 0 <= i < done + 1 implies call_ensures(
                            T::into_lua,
                            (#[trigger] all[i], lua),
                            Ok::<Value, Error>(m@[i]),
                        ) by {
                            if i < done {
                                assert(m@[i] == before[i]);
                            }
                        }
                        done = done + 1;
                    }
                },
                Err(e) => {
                    proof {
                        assert forall|j: int| 0 <= j < done implies exists|v: Value| call_ensures(
                            T::into_lua,
                            (#[trigger] all[j], lua),
                            Ok::<Value, Error>(v),
                        ) by {
                            assert(call_ensures(T::into_lua, (all[j], lua), Ok::<Value, Error>(m@[j])));
                        }
                        assert(spec_items_into_lua(all, lua, Err::<MultiValue, Error>(e)));
                    }
                    return Err(e);
                },
            }
        }
        assert(done == all.len());
        Ok(m)
    }
}

/// A result as a list of values: the values on success; `nil` and the error
/// on failure.
pub fn result_into_lua_multi(r: Result<MultiValue, Error>) -> (out: MultiValue)
    ensures
        r matches Ok(m) ==> out@ == m@,
        r matches Err(e) ==> out@.len() == 2 && out@[0] is Nil && (out@[1] matches Value::Error(x) && *x == e),
{
    match r {
        Ok(m) => m,
        Err(e) => {
            let mut m = MultiValue::with_capacity(2);
            m.push_back(Value::Nil);
            m.push_back(Value::Error(Box::new(e)));
            m
        },
    }
}

/// The first of a list of values, `nil` when there is none (what a single
/// value takes from a list).
pub fn first_value(values: MultiValue) -> (r: Value)
    ensures
        values@.len() > 0 ==> r == values@[0],
        values@.len() == 0 ==> r is Nil,
{
    let mut values = values;
    match values.pop_front() {
        Some(v) => v,
        None => Value::Nil,
    }
}

} // verus!
