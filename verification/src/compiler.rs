//! The options of the bytecode compiler.

use vstd::prelude::*;
use crate::state::spec_has_nul;

verus! {

/// Bytes that can be a C string (no NUL inside): kept; otherwise dropped.
pub open spec fn spec_c_string(bytes: Seq<u8>) -> Option<Seq<u8>> {
    if spec_has_nul(bytes) { None } else { Some(bytes) }
}

/// The bytes kept as a C string, or none when they hold a NUL.
pub fn c_string(bytes: Vec<u8>) -> (r: Option<Vec<u8>>)
    ensures
        match spec_c_string(bytes@) {
            Some(b) => r matches Some(x) && x@ == b,
            None => r is None,
        },
{
    let mut i: usize = 0;
    while i < bytes.len()
        invariant
            i <= bytes@.len(),
            forall|j: int| 0 <= j < i ==> bytes@[j] != 0u8,
        decreases bytes.len() - i,
    {
        if bytes[i] == 0u8 {
            return None;
        }
        i += 1;
    }
    Some(bytes)
}

/// The options of the compiler.
#[derive(Debug)]
pub struct Compiler {
    pub(crate) optimization_level: u8,
    pub(crate) debug_level: u8,
    pub(crate) type_info_level: u8,
    pub(crate) coverage_level: u8,
    pub(crate) vector_lib: Option<Vec<u8>>,
    pub(crate) vector_ctor: Option<Vec<u8>>,
    pub(crate) vector_type: Option<Vec<u8>>,
    pub(crate) mutable_globals: Vec<Vec<u8>>,
}

/// The names among `names` that can be C strings, in order.
pub open spec fn spec_c_names(names: Seq<Seq<u8>>) -> Seq<Seq<u8>> {
    names.filter(|n: Seq<u8>| !spec_has_nul(n))
}

impl Compiler {
    /// The compiler's defaults: optimization and debug level 1, type-info
    /// and coverage level 0, no vector names, no mutable global.
    pub fn new() -> (r: Compiler)
        ensures
            r.spec_optimization_level() == 1,
            r.spec_debug_level() == 1,
            r.spec_type_info_level() == 0,
            r.spec_coverage_level() == 0,
            r.spec_vector_lib() is None && r.spec_vector_ctor() is None && r.spec_vector_type() is None,
            r.spec_mutable_globals() == Seq::<Seq<u8>>::empty(),
    {
        let r = Compiler {
            optimization_level: 1,
            debug_level: 1,
            type_info_level: 0,
            coverage_level: 0,
            vector_lib: None,
            vector_ctor: None,
            vector_type: None,
            mutable_globals: Vec::new(),
        };
        assert(r.spec_mutable_globals() =~= Seq::<Seq<u8>>::empty());
        r
    }

    /// The optimization level.
    pub closed spec fn spec_optimization_level(&self) -> u8 {
        self.optimization_level
    }

    /// The debug level.
    pub closed spec fn spec_debug_level(&self) -> u8 {
        self.debug_level
    }

    /// The type-info level.
    pub closed spec fn spec_type_info_level(&self) -> u8 {
        self.type_info_level
    }

    /// The coverage level.
    pub closed spec fn spec_coverage_level(&self) -> u8 {
        self.coverage_level
    }

    /// The vector library name.
    pub closed spec fn spec_vector_lib(&self) -> Option<Seq<u8>> {
        match self.vector_lib {
            Some(v) => Some(v@),
            None => None,
        }
    }

    /// The vector constructor name.
    pub closed spec fn spec_vector_ctor(&self) -> Option<Seq<u8>> {
        match self.vector_ctor {
            Some(v) => Some(v@),
            None => None,
        }
    }

    /// The vector type name.
    pub closed spec fn spec_vector_type(&self) -> Option<Seq<u8>> {
        match self.vector_type {
            Some(v) => Some(v@),
            None => None,
        }
    }

    /// The globals the compiler may not treat as constant.
    pub closed spec fn spec_mutable_globals(&self) -> Seq<Seq<u8>> {
        self.mutable_globals@.map_values(|v: Vec<u8>| v@)
    }

    /// The compiler with the optimization level set.
    pub fn set_optimization_level(self, level: u8) -> (r: Compiler)
        ensures
            r.spec_optimization_level() == level,
            r.spec_debug_level() == self.spec_debug_level(),
            r.spec_type_info_level() == self.spec_type_info_level(),
            r.spec_coverage_level() == self.spec_coverage_level(),
            r.spec_mutable_globals() == self.spec_mutable_globals(),
    {
        Compiler { optimization_level: level, ..self }
    }

    /// The compiler with the debug level set.
    pub fn set_debug_level(self, level: u8) -> (r: Compiler)
        ensures
            r.spec_debug_level() == level,
            r.spec_optimization_level() == self.spec_optimization_level(),
            r.spec_type_info_level() == self.spec_type_info_level(),
            r.spec_coverage_level() == self.spec_coverage_level(),
            r.spec_mutable_globals() == self.spec_mutable_globals(),
    {
        Compiler { debug_level: level, ..self }
    }

    /// The compiler with the type-info level set.
    pub fn set_type_info_level(self, level: u8) -> (r: Compiler)
        ensures
            r.spec_type_info_level() == level,
            r.spec_optimization_level() == self.spec_optimization_level(),
            r.spec_debug_level() == self.spec_debug_level(),
            r.spec_coverage_level() == self.spec_coverage_level(),
            r.spec_mutable_globals() == self.spec_mutable_globals(),
    {
        Compiler { type_info_level: level, ..self }
    }

    /// The compiler with the coverage level set.
    pub fn set_coverage_level(self, level: u8) -> (r: Compiler)
        ensures
            r.spec_coverage_level() == level,
            r.spec_optimization_level() == self.spec_optimization_level(),
            r.spec_debug_level() == self.spec_debug_level(),
            r.spec_type_info_level() == self.spec_type_info_level(),
            r.spec_mutable_globals() == self.spec_mutable_globals(),
    {
        Compiler { coverage_level: level, ..self }
    }

    /// The compiler with the vector library name set (dropped if it holds a NUL).
    pub fn set_vector_lib(self, lib: Vec<u8>) -> (r: Compiler)
        ensures
            r.spec_vector_lib() == spec_c_string(lib@),
            r.spec_vector_ctor() == self.spec_vector_ctor(),
            r.spec_vector_type() == self.spec_vector_type(),
    {
        Compiler { vector_lib: c_string(lib), ..self }
    }

    /// The compiler with the vector constructor name set (dropped if it holds a NUL).
    pub fn set_vector_ctor(self, ctor: Vec<u8>) -> (r: Compiler)
        ensures
            r.spec_vector_ctor() == spec_c_string(ctor@),
            r.spec_vector_lib() == self.spec_vector_lib(),
            r.spec_vector_type() == self.spec_vector_type(),
    {
        Compiler { vector_ctor: c_string(ctor), ..self }
    }

    /// The compiler with the vector type name set (dropped if it holds a NUL).
    pub fn set_vector_type(self, ty: Vec<u8>) -> (r: Compiler)
        ensures
            r.spec_vector_type() == spec_c_string(ty@),
            r.spec_vector_lib() == self.spec_vector_lib(),
            r.spec_vector_ctor() == self.spec_vector_ctor(),
    {
        Compiler { vector_type: c_string(ty), ..self }
    }

    /// The compiler with the mutable globals set; names holding a NUL are
    /// dropped.
    pub fn set_mutable_globals(self, globals: Vec<Vec<u8>>) -> (r: Compiler)
        ensures
            r.spec_mutable_globals() == spec_c_names(globals@.map_values(|v: Vec<u8>| v@)),
            r.spec_optimization_level() == self.spec_optimization_level(),
    {
        let ghost all = globals@.map_values(|v: Vec<u8>| v@);
        let mut rest = globals;
        let mut kept: Vec<Vec<u8>> = Vec::new();
        let total: usize = rest.len();
        let mut i: usize = 0;
        proof {
            reveal(Seq::filter);
            assert(spec_c_names(all.subrange(0, 0)) =~= Seq::<Seq<u8>>::empty());
            assert(kept@.map_values(|v: Vec<u8>| v@) =~= Seq::<Seq<u8>>::empty());
        }
        while rest.len() > 0
            invariant
                i <= total,
                all.len() == total,
                rest@.len() == total - i,
                forall|j: int| 0 <= j < rest@.len() ==> #[trigger] rest@[j]@ == all[i + j],
                kept@.map_values(|v: Vec<u8>| v@) == spec_c_names(all.subrange(0, i as int)),
            decreases rest.len(),
        {
            let ghost before = rest@;
            let g = rest.remove(0);
            assert(g@ == all[i as int]);
            assert forall|j: int| 0 <= j < rest@.len() implies #[trigger] rest@[j]@ == all[i + 1 + j] by {
                assert(rest@[j] == before[j + 1]);
            }
            let ghost prefix = all.subrange(0, i as int);
            assert(all.subrange(0, i + 1) =~= prefix.push(g@));
            proof {
                reveal(Seq::filter);
                assert(prefix.push(g@).drop_last() =~= prefix);
            }
            let ghost kept_before = kept@;
            match c_string(g) {
                Some(c) => {
                    kept.push(c);
                    assert(kept@.map_values(|v: Vec<u8>| v@) =~= kept_before.map_values(|v: Vec<u8>| v@).push(all[i as int]));
                },
                None => {},
            }
            i += 1;
        }
        assert(all.subrange(0, total as int) =~= all);
        Compiler { mutable_globals: kept, ..self }
    }
}

} // verus!
