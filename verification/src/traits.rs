//! The conversion traits between Rust values and Lua values.

use vstd::prelude::*;
use crate::error::Error;
use crate::multi::MultiValue;
use crate::state::Lua;
use crate::value::Value;

verus! {

/// A Rust value that converts into one Lua value.
pub trait IntoLua: Sized {
    /// The conversion.
    fn into_lua(self, lua: &Lua) -> Result<Value, Error>;
}

/// A Rust value that one Lua value converts into.
pub trait FromLua: Sized {
    /// The conversion.
    fn from_lua(value: Value, lua: &Lua) -> Result<Self, Error>;
}

/// A Rust value that converts into a list of Lua values.
pub trait IntoLuaMulti: Sized {
    /// The conversion.
    fn into_lua_multi(self, lua: &Lua) -> Result<MultiValue, Error>;
}

/// A Rust value that a list of Lua values converts into.
pub trait FromLuaMulti: Sized {
    /// The conversion.
    fn from_lua_multi(values: MultiValue, lua: &Lua) -> Result<Self, Error>;
}

} // verus!
