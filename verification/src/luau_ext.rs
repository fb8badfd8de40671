//! The value types whose values share one metatable per VM, and their keys.

use vstd::prelude::*;
use crate::function::Function;
use crate::string::LuaString;
use crate::thread::Thread;
use crate::value::LightUserData;

verus! {

/// Closes [`TypeMetatable`] to the types below.
pub trait Sealed {}

impl Sealed for bool {}

impl Sealed for LuaString {}

impl Sealed for Function {}

impl Sealed for Thread {}

impl Sealed for LightUserData {}

/// A value type with one metatable per VM, named by its key.
pub trait TypeMetatable: Sealed {
    /// The key of the type's metatable.
    fn type_key() -> u64;
}

/// The key of the boolean type's metatable.
pub const BOOLEAN_TYPE: u64 = 1;
/// The key of the string type's metatable.
pub const STRING_TYPE: u64 = 5;
/// The key of the function type's metatable.
pub const FUNCTION_TYPE: u64 = 7;
/// The key of the thread type's metatable.
pub const THREAD_TYPE: u64 = 9;
/// The key of the light userdata type's metatable.
pub const LIGHTUSERDATA_TYPE: u64 = 2;

impl TypeMetatable for bool {
    fn type_key() -> (r: u64)
        ensures
            r == BOOLEAN_TYPE,
    {
        BOOLEAN_TYPE
    }
}

impl TypeMetatable for LuaString {
    fn type_key() -> (r: u64)
        ensures
            r == STRING_TYPE,
    {
        STRING_TYPE
    }
}

impl TypeMetatable for Function {
    fn type_key() -> (r: u64)
        ensures
            r == FUNCTION_TYPE,
    {
        FUNCTION_TYPE
    }
}

impl TypeMetatable for Thread {
    fn type_key() -> (r: u64)
        ensures
            r == THREAD_TYPE,
    {
        THREAD_TYPE
    }
}

impl TypeMetatable for LightUserData {
    fn type_key() -> (r: u64)
        ensures
            r == LIGHTUSERDATA_TYPE,
    {
        LIGHTUSERDATA_TYPE
    }
}

} // verus!
