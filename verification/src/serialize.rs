//! Conversion between Rust data and Lua values through serde: the options,
//! the value each serialized item becomes and the tables that compound items
//! build, what a Lua value emits when serialized, and the rules of reading
//! tables back.

pub mod de;
pub mod messages;
pub mod ser;
pub mod value_serialize;
