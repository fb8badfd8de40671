//! `ulua_rt`: the embedding layer of the ulua runtime, stated as plain values
//! and verified with Verus.
//!
//! Every piece of bookkeeping that the runtime keeps beside the VM (the
//! per-VM side stores, the borrow discipline of app data and userdata, the
//! sequence operations over tables and buffers, the conversion rules between
//! Lua values and Rust values, the decisions of the coroutine and async
//! drivers, the rules by which serde reads tables back) is a function here
//! with a contract over a mathematical model.

#![allow(unused_imports)]

pub mod error;
pub mod string;
pub mod value;
pub mod buffer;
pub mod table;
pub mod multi;
pub mod keyed;
pub mod app_data;
pub mod registry;
pub mod module;
pub mod gc;
pub mod memory;
pub mod options;
pub mod typecheck;
pub mod state;
pub mod thread;
pub mod async_thread;
pub mod userdata;
pub mod metamethod;
pub mod debug;
pub mod function;
pub mod interrupt;
pub mod serialize;
pub mod callback;
pub mod scope;
pub mod traits;
pub mod conversion;
pub mod compiler;
pub mod chunk;
pub mod sync;
pub mod luau_ext;
pub mod resolve;
