//! Functions: identity, bound arguments, and what the VM reports about one.

use vstd::prelude::*;
use vstd::string::StrSliceExecFns;
use crate::multi::MultiValue;
use crate::value::{ObjectId, Value, spec_same_value};

verus! {

/// A handle to a Lua function.
#[derive(Debug, Clone, Copy, PartialEq, Eq, Structural)]
pub struct Function {
    pub id: ObjectId,
}

impl Function {
    /// The identity of the function.
    pub fn to_pointer(&self) -> (r: ObjectId)
        ensures
            r == self.id,
    {
        self.id
    }
}

/// The arguments a bound function passes: the bound ones, then the call's.
pub fn concat_bound(bound: &Vec<Value>, extra: MultiValue) -> (r: MultiValue)
    ensures
        r@.len() == bound@.len() + extra@.len(),
        forall|i: int| 0 <= i < bound@.len() ==> spec_same_value(#[trigger] r@[i], bound@[i]),
        forall|i: int| 0 <= i < extra@.len() ==> r@[bound@.len() + i] == #[trigger] extra@[i],
{
    let mut out = extra;
    let ghost tail = out@;
    let mut i: usize = bound.len();
    while i > 0
        invariant
            i <= bound@.len(),
            out@.len() == (bound@.len() - i) + tail.len(),
            forall|j: int| 0 <= j < bound@.len() - i ==> spec_same_value(#[trigger] out@[j], bound@[i + j]),
            forall|j: int| 0 <= j < tail.len() ==> out@[(bound@.len() - i) + j] == #[trigger] tail[j],
        decreases i,
    {
        i -= 1;
        let v = bound[i].clone();
        let ghost before = out@;
        out.push_front(v);
        assert forall|j: int| 0 <= j < bound@.len() - i implies spec_same_value(#[trigger] out@[j], bound@[i + j]) by {
            if j > 0 {
                assert(out@[j] == before[j - 1]);
            }
        }
        assert forall|j: int| 0 <= j < tail.len() implies out@[(bound@.len() - i) + j] == #[trigger] tail[j] by {
            assert(out@[(bound@.len() - i) + j] == before[(bound@.len() - i - 1) + j]);
        }
    }
    out
}

/// Whether a function kind is a Lua one (`Lua` or `main`).
pub open spec fn spec_is_lua_what(what: Seq<char>) -> bool {
    what == seq!['L', 'u', 'a'] || what == seq!['m', 'a', 'i', 'n']
}

/// Whether the kind `what` is a Lua one.
pub fn is_lua_what(what: &str) -> (r: bool)
    ensures
        r == spec_is_lua_what(what@),
{
    let n = what.unicode_len();
    if n == 3 {
        let a = what.get_char(0);
        let b = what.get_char(1);
        let c = what.get_char(2);
        let r = a == 'L' && b == 'u' && c == 'a';
        if r {
            assert(what@ =~= seq!['L', 'u', 'a']);
        }
        r
    } else if n == 4 {
        let a = what.get_char(0);
        let b = what.get_char(1);
        let c = what.get_char(2);
        let d = what.get_char(3);
        let r = a == 'm' && b == 'a' && c == 'i' && d == 'n';
        if r {
            assert(what@ =~= seq!['m', 'a', 'i', 'n']);
        }
        r
    } else {
        false
    }
}

/// The source name reported for a function: for a Lua function, one leading
/// `=` or `@` (the chunk-name marker) is dropped.
pub open spec fn spec_reported_source(what: Seq<char>, source: Seq<char>) -> Seq<char> {
    if spec_is_lua_what(what) && source.len() > 0 && (source[0] == '=' || source[0] == '@') {
        source.drop_first()
    } else {
        source
    }
}

/// The source name reported for a function of kind `what`.
pub fn reported_source(what: &str, source: &str) -> (r: String)
    ensures
        r@ == spec_reported_source(what@, source@),
{
    let n = source.unicode_len();
    if is_lua_what(what) && n > 0 {
        let first = source.get_char(0);
        if first == '=' || first == '@' {
            let rest = source.substring_char(1, n);
            assert(rest@ =~= source@.drop_first());
            return rest.to_owned();
        }
    }
    source.to_owned()
}

/// What the VM reports about a function.
#[derive(Debug)]
pub struct FunctionInfo {
    pub name: Option<String>,
    pub source: Option<String>,
    pub short_src: Option<String>,
    pub line_defined: Option<i64>,
    /// Never reported by the VM.
    pub last_line_defined: Option<i64>,
    pub what: String,
    pub num_upvalues: u8,
    pub num_params: u8,
    pub is_vararg: bool,
}

impl FunctionInfo {
    /// The record of a function the VM could not describe.
    pub fn unknown() -> (r: FunctionInfo)
        ensures
            r.name is None && r.source is None && r.short_src is None && r.line_defined is None
                && r.last_line_defined is None && r.what@ == Seq::<char>::empty() && r.num_upvalues == 0
                && r.num_params == 0 && !r.is_vararg,
    {
        FunctionInfo {
            name: None,
            source: None,
            short_src: None,
            line_defined: None,
            last_line_defined: None,
            what: String::new(),
            num_upvalues: 0,
            num_params: 0,
            is_vararg: false,
        }
    }

    /// The record built from the VM's report of a function.
    pub fn from_report(
        name: Option<String>,
        what: String,
        source: Option<&str>,
        short_src: Option<String>,
        line_defined: i32,
        num_upvalues: u8,
        num_params: u8,
        is_vararg: bool,
    ) -> (r: FunctionInfo)
        ensures
            r.name == name,
            r.what@ == what@,
            source matches Some(s) ==> (r.source matches Some(x) && x@ == spec_reported_source(what@, s@)),
            source is None ==> r.source is None,
            r.short_src == short_src,
            r.line_defined == crate::debug::spec_line_defined(line_defined),
            r.last_line_defined is None,
            r.num_upvalues == num_upvalues,
            r.num_params == num_params,
            r.is_vararg == is_vararg,
    {
        let source = match source {
            Some(s) => Some(reported_source(what.as_str(), s)),
            None => None,
        };
        FunctionInfo {
            name,
            source,
            short_src,
            line_defined: if line_defined > 0 { Some(line_defined as i64) } else { None },
            last_line_defined: None,
            what,
            num_upvalues,
            num_params,
            is_vararg,
        }
    }
}

} // verus!
