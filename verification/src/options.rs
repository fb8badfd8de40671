//! The selection of standard libraries and the per-VM options of a new VM.

use vstd::prelude::*;

verus! {

/// A bit set selecting standard libraries. The VM opens its libraries as a
/// unit: an empty selection opens nothing, any other opens all of them.
#[derive(Debug, Clone, Copy, PartialEq, Eq, Structural)]
pub struct StdLib(pub u32);

impl StdLib {
    /// No library.
    pub fn none() -> (r: StdLib)
        ensures
            r.0 == 0,
    {
        StdLib(0)
    }

    /// The `coroutine` library.
    pub fn coroutine() -> (r: StdLib)
        ensures
            r.0 == 1,
    {
        StdLib(1)
    }

    /// The `table` library.
    pub fn table() -> (r: StdLib)
        ensures
            r.0 == 2,
    {
        StdLib(2)
    }

    /// The `os` library.
    pub fn os() -> (r: StdLib)
        ensures
            r.0 == 4,
    {
        StdLib(4)
    }

    /// The `string` library.
    pub fn string() -> (r: StdLib)
        ensures
            r.0 == 8,
    {
        StdLib(8)
    }

    /// The `math` library.
    pub fn math() -> (r: StdLib)
        ensures
            r.0 == 16,
    {
        StdLib(16)
    }

    /// The `bit32`, `buffer` and `vector` libraries.
    pub fn bit32() -> (r: StdLib)
        ensures
            r.0 == 32,
    {
        StdLib(32)
    }

    /// The base library.
    pub fn base() -> (r: StdLib)
        ensures
            r.0 == 64,
    {
        StdLib(64)
    }

    /// Every safe library.
    pub fn all_safe() -> (r: StdLib)
        ensures
            r.0 == 0x7fff_ffff,
    {
        StdLib(0x7fff_ffff)
    }

    /// Every library.
    pub fn all() -> (r: StdLib)
        ensures
            r.0 == u32::MAX,
    {
        StdLib(u32::MAX)
    }

    /// Whether the selection is empty (opens nothing).
    pub fn is_none(self) -> (r: bool)
        ensures
            r == (self.0 == 0),
    {
        self.0 == 0
    }

    /// The union of two selections.
    pub fn union(self, rhs: StdLib) -> (r: StdLib)
        ensures
            r.0 == self.0 | rhs.0,
            r.0 == 0 <==> self.0 == 0 && rhs.0 == 0,
    {
        let a = self.0;
        let b = rhs.0;
        let u = a | b;
        assert(u == 0 <==> a == 0 && b == 0) by (bit_vector)
            requires
                u == a | b,
        ;
        StdLib(u)
    }

    /// Whether every library of `other` is selected.
    pub fn contains(self, other: StdLib) -> (r: bool)
        ensures
            r == (self.0 & other.0 == other.0),
    {
        self.0 & other.0 == other.0
    }
}

impl core::ops::BitOr for StdLib {
    type Output = StdLib;

    /// The union of two selections.
    fn bitor(self, rhs: StdLib) -> (r: StdLib) {
        self.union(rhs)
    }
}

impl vstd::std_specs::ops::BitOrSpecImpl for StdLib {
    open spec fn obeys_bitor_spec() -> bool {
        true
    }

    open spec fn bitor_req(self, rhs: StdLib) -> bool {
        true
    }

    open spec fn bitor_spec(self, rhs: StdLib) -> StdLib {
        StdLib(self.0 | rhs.0)
    }
}

/// A union contains both of its parts.
pub proof fn law_union_contains(a: u32, b: u32)
    ensures
        (a | b) & a == a,
        (a | b) & b == b,
{
    assert((a | b) & a == a) by (bit_vector);
    assert((a | b) & b == b) by (bit_vector);
}

/// Per-VM behavioural options.
#[derive(Debug, Clone, Copy, PartialEq, Eq, Structural)]
pub struct LuaOptions {
    /// Whether a panic in a callback is caught and raised as a Lua error.
    pub catch_rust_panics: bool,
}

impl LuaOptions {
    /// The default options: panics are caught.
    pub fn new() -> (r: LuaOptions)
        ensures
            r.catch_rust_panics,
    {
        LuaOptions { catch_rust_panics: true }
    }

    /// The options with panic catching set to `enabled`.
    pub fn catch_rust_panics(self, enabled: bool) -> (r: LuaOptions)
        ensures
            r.catch_rust_panics == enabled,
    {
        LuaOptions { catch_rust_panics: enabled }
    }
}

impl Default for LuaOptions {
    fn default() -> (r: LuaOptions)
        ensures
            r.catch_rust_panics,
    {
        LuaOptions::new()
    }
}

} // verus!
