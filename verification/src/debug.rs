//! What the VM reports about an active function of the call stack.

use vstd::prelude::*;
use crate::string::bytes_equal;

verus! {

/// The kind of an active function.
#[derive(Debug, Clone, Copy, PartialEq, Eq, Structural)]
pub enum DebugWhat {
    /// A Lua function.
    Lua,
    /// The main chunk.
    Main,
    /// A native function.
    C,
    /// A kind the VM did not name.
    Unknown,
}

/// The kind that the VM's `what` text names.
pub open spec fn spec_what(what: Seq<u8>) -> DebugWhat {
    if what == seq![76u8, 117u8, 97u8] {
        DebugWhat::Lua
    } else if what == seq![109u8, 97u8, 105u8, 110u8] {
        DebugWhat::Main
    } else if what == seq![67u8] {
        DebugWhat::C
    } else {
        DebugWhat::Unknown
    }
}

/// The kind that the VM's `what` text (`Lua`, `main`, `C`) names.
pub fn parse_what(what: &[u8]) -> (r: DebugWhat)
    ensures
        r == spec_what(what@),
{
    let lua: [u8; 3] = [76u8, 117u8, 97u8];
    let main: [u8; 4] = [109u8, 97u8, 105u8, 110u8];
    let c: [u8; 1] = [67u8];
    if bytes_equal(what, lua.as_slice()) {
        assert(lua@ =~= seq![76u8, 117u8, 97u8]);
        DebugWhat::Lua
    } else if bytes_equal(what, main.as_slice()) {
        assert(main@ =~= seq![109u8, 97u8, 105u8, 110u8]);
        DebugWhat::Main
    } else if bytes_equal(what, c.as_slice()) {
        assert(c@ =~= seq![67u8]);
        DebugWhat::C
    } else {
        assert(lua@ =~= seq![76u8, 117u8, 97u8]);
        assert(main@ =~= seq![109u8, 97u8, 105u8, 110u8]);
        assert(c@ =~= seq![67u8]);
        DebugWhat::Unknown
    }
}

/// A line as the VM reports it is known when it is not negative.
pub open spec fn spec_current_line(line: i32) -> Option<i64> {
    if line >= 0 { Some(line as i64) } else { None }
}

/// A definition line is known when it is positive.
pub open spec fn spec_line_defined(line: i32) -> Option<i64> {
    if line > 0 { Some(line as i64) } else { None }
}

/// What is known about an active function.
#[derive(Debug)]
pub struct Debug {
    pub(crate) name: Option<String>,
    pub(crate) what: DebugWhat,
    pub(crate) source: Option<String>,
    pub(crate) short_src: Option<String>,
    pub(crate) current_line: Option<i64>,
    pub(crate) line_defined: Option<i64>,
}

impl Debug {
    /// The record built from the VM's report: the kind from its `what` text,
    /// the current line when not negative, the definition line when positive.
    pub fn from_report(
        name: Option<String>,
        what: &[u8],
        source: Option<String>,
        short_src: Option<String>,
        current_line: i32,
        line_defined: i32,
    ) -> (r: Debug)
        ensures
            r.spec_name() == name,
            r.spec_what() == spec_what(what@),
            r.spec_source() == source,
            r.spec_short_src() == short_src,
            r.spec_current_line() == spec_current_line(current_line),
            r.spec_line_defined() == spec_line_defined(line_defined),
    {
        Debug {
            name,
            what: parse_what(what),
            source,
            short_src,
            current_line: if current_line >= 0 { Some(current_line as i64) } else { None },
            line_defined: if line_defined > 0 { Some(line_defined as i64) } else { None },
        }
    }

    /// The function's name.
    pub closed spec fn spec_name(&self) -> Option<String> {
        self.name
    }

    /// The function's kind.
    pub closed spec fn spec_what(&self) -> DebugWhat {
        self.what
    }

    /// The chunk source name.
    pub closed spec fn spec_source(&self) -> Option<String> {
        self.source
    }

    /// The short source description.
    pub closed spec fn spec_short_src(&self) -> Option<String> {
        self.short_src
    }

    /// The current line.
    pub closed spec fn spec_current_line(&self) -> Option<i64> {
        self.current_line
    }

    /// The definition line.
    pub closed spec fn spec_line_defined(&self) -> Option<i64> {
        self.line_defined
    }

    /// The function's name, if known.
    pub fn name(&self) -> (r: Option<&str>)
        ensures
            r matches Some(s) ==> self.spec_name() matches Some(n) && s@ == n@,
            r is None ==> self.spec_name() is None,
    {
        match &self.name {
            Some(n) => Some(n.as_str()),
            None => None,
        }
    }

    /// The function's kind.
    pub fn what(&self) -> (r: DebugWhat)
        ensures
            r == self.spec_what(),
    {
        self.what
    }

    /// The chunk source name, if known.
    pub fn source(&self) -> (r: Option<&str>)
        ensures
            r matches Some(s) ==> self.spec_source() matches Some(n) && s@ == n@,
            r is None ==> self.spec_source() is None,
    {
        match &self.source {
            Some(n) => Some(n.as_str()),
            None => None,
        }
    }

    /// The short source description, if known.
    pub fn short_src(&self) -> (r: Option<&str>)
        ensures
            r matches Some(s) ==> self.spec_short_src() matches Some(n) && s@ == n@,
            r is None ==> self.spec_short_src() is None,
    {
        match &self.short_src {
            Some(n) => Some(n.as_str()),
            None => None,
        }
    }

    /// The current line, if known.
    pub fn current_line(&self) -> (r: Option<i64>)
        ensures
            r == self.spec_current_line(),
    {
        self.current_line
    }

    /// The definition line, if known.
    pub fn line_defined(&self) -> (r: Option<i64>)
        ensures
            r == self.spec_line_defined(),
    {
        self.line_defined
    }
}

} // verus!
