//! The names of the metamethods.

use vstd::prelude::*;
use vstd::string::StringSliceAdditionalSpecFns;
use crate::string::bytes_equal;

verus! {

/// A metamethod.
#[derive(Debug, Clone, Copy, PartialEq, Eq, Structural, Hash)]
#[non_exhaustive]
pub enum MetaMethod {
    /// The metamethod of `+`.
    Add,
    /// The metamethod of `-`.
    Sub,
    /// The metamethod of `*`.
    Mul,
    /// The metamethod of `/`.
    Div,
    /// The metamethod of `%`.
    Mod,
    /// The metamethod of `^`.
    Pow,
    /// The metamethod of unary `-`.
    Unm,
    /// The metamethod of `//`.
    IDiv,
    /// The metamethod of `..`.
    Concat,
    /// The metamethod of `#`.
    Len,
    /// The metamethod of `==`.
    Eq,
    /// The metamethod of `<`.
    Lt,
    /// The metamethod of `<=`.
    Le,
    /// The metamethod of field read.
    Index,
    /// The metamethod of field write.
    NewIndex,
    /// The metamethod of call.
    Call,
    /// The metamethod of `tostring`.
    ToString,
    /// The metamethod of generic `for` iteration.
    Iter,
    /// The metamethod of `typeof`.
    Type,
}

/// The name of a metamethod as it stands in a metatable (`__` and the
/// lower-cased variant name).
pub open spec fn spec_name(m: MetaMethod) -> &'static str {
    match m {
        MetaMethod::Add => "__add",
        MetaMethod::Sub => "__sub",
        MetaMethod::Mul => "__mul",
        MetaMethod::Div => "__div",
        MetaMethod::Mod => "__mod",
        MetaMethod::Pow => "__pow",
        MetaMethod::Unm => "__unm",
        MetaMethod::IDiv => "__idiv",
        MetaMethod::Concat => "__concat",
        MetaMethod::Len => "__len",
        MetaMethod::Eq => "__eq",
        MetaMethod::Lt => "__lt",
        MetaMethod::Le => "__le",
        MetaMethod::Index => "__index",
        MetaMethod::NewIndex => "__newindex",
        MetaMethod::Call => "__call",
        MetaMethod::ToString => "__tostring",
        MetaMethod::Iter => "__iter",
        MetaMethod::Type => "__type",
    }
}

/// The name of a metamethod as text parses it: the lower-cased variant name.
pub open spec fn spec_parse_name(m: MetaMethod) -> &'static str {
    match m {
        MetaMethod::Add => "add",
        MetaMethod::Sub => "sub",
        MetaMethod::Mul => "mul",
        MetaMethod::Div => "div",
        MetaMethod::Mod => "mod",
        MetaMethod::Pow => "pow",
        MetaMethod::Unm => "unm",
        MetaMethod::IDiv => "idiv",
        MetaMethod::Concat => "concat",
        MetaMethod::Len => "len",
        MetaMethod::Eq => "eq",
        MetaMethod::Lt => "lt",
        MetaMethod::Le => "le",
        MetaMethod::Index => "index",
        MetaMethod::NewIndex => "newindex",
        MetaMethod::Call => "call",
        MetaMethod::ToString => "tostring",
        MetaMethod::Iter => "iter",
        MetaMethod::Type => "type",
    }
}

impl MetaMethod {
    /// The name of the metamethod in a metatable, such as `__add`.
    pub fn name(self) -> (r: &'static str)
        ensures
            r == spec_name(self),
    {
        match self {
            MetaMethod::Add => "__add",
            MetaMethod::Sub => "__sub",
            MetaMethod::Mul => "__mul",
            MetaMethod::Div => "__div",
            MetaMethod::Mod => "__mod",
            MetaMethod::Pow => "__pow",
            MetaMethod::Unm => "__unm",
            MetaMethod::IDiv => "__idiv",
            MetaMethod::Concat => "__concat",
            MetaMethod::Len => "__len",
            MetaMethod::Eq => "__eq",
            MetaMethod::Lt => "__lt",
            MetaMethod::Le => "__le",
            MetaMethod::Index => "__index",
            MetaMethod::NewIndex => "__newindex",
            MetaMethod::Call => "__call",
            MetaMethod::ToString => "__tostring",
            MetaMethod::Iter => "__iter",
            MetaMethod::Type => "__type",
        }
    }

    /// The metamethod that `s` names as text: its lower-cased variant name,
    /// without the `__` of the metatable name.
    pub fn from_str(s: &str) -> (r: Option<MetaMethod>)
        ensures
            r matches Some(m) ==> s.spec_bytes() == spec_parse_name(m).spec_bytes(),
            r is None ==> forall|m: MetaMethod| s.spec_bytes() != #[trigger] spec_parse_name(m).spec_bytes(),
    {
        let b = s.as_bytes();
        if bytes_equal(b, "add".as_bytes()) {
            return Some(MetaMethod::Add);
        }
        if bytes_equal(b, "sub".as_bytes()) {
            return Some(MetaMethod::Sub);
        }
        if bytes_equal(b, "mul".as_bytes()) {
            return Some(MetaMethod::Mul);
        }
        if bytes_equal(b, "div".as_bytes()) {
            return Some(MetaMethod::Div);
        }
        if bytes_equal(b, "mod".as_bytes()) {
            return Some(MetaMethod::Mod);
        }
        if bytes_equal(b, "pow".as_bytes()) {
            return Some(MetaMethod::Pow);
        }
        if bytes_equal(b, "unm".as_bytes()) {
            return Some(MetaMethod::Unm);
        }
        if bytes_equal(b, "idiv".as_bytes()) {
            return Some(MetaMethod::IDiv);
        }
        if bytes_equal(b, "concat".as_bytes()) {
            return Some(MetaMethod::Concat);
        }
        if bytes_equal(b, "len".as_bytes()) {
            return Some(MetaMethod::Len);
        }
        if bytes_equal(b, "eq".as_bytes()) {
            return Some(MetaMethod::Eq);
        }
        if bytes_equal(b, "lt".as_bytes()) {
            return Some(MetaMethod::Lt);
        }
        if bytes_equal(b, "le".as_bytes()) {
            return Some(MetaMethod::Le);
        }
        if bytes_equal(b, "index".as_bytes()) {
            return Some(MetaMethod::Index);
        }
        if bytes_equal(b, "newindex".as_bytes()) {
            return Some(MetaMethod::NewIndex);
        }
        if bytes_equal(b, "call".as_bytes()) {
            return Some(MetaMethod::Call);
        }
        if bytes_equal(b, "tostring".as_bytes()) {
            return Some(MetaMethod::ToString);
        }
        if bytes_equal(b, "iter".as_bytes()) {
            return Some(MetaMethod::Iter);
        }
        if bytes_equal(b, "type".as_bytes()) {
            return Some(MetaMethod::Type);
        }
        proof {
            assert forall|m: MetaMethod| s.spec_bytes() != #[trigger] spec_parse_name(m).spec_bytes() by {
                match m {
                    MetaMethod::Add => {},
                    MetaMethod::Sub => {},
                    MetaMethod::Mul => {},
                    MetaMethod::Div => {},
                    MetaMethod::Mod => {},
                    MetaMethod::Pow => {},
                    MetaMethod::Unm => {},
                    MetaMethod::IDiv => {},
                    MetaMethod::Concat => {},
                    MetaMethod::Len => {},
                    MetaMethod::Eq => {},
                    MetaMethod::Lt => {},
                    MetaMethod::Le => {},
                    MetaMethod::Index => {},
                    MetaMethod::NewIndex => {},
                    MetaMethod::Call => {},
                    MetaMethod::ToString => {},
                    MetaMethod::Iter => {},
                    MetaMethod::Type => {},
                }
            }
        }
        None
    }

    /// Whether `name` is the metatable name of this metamethod.
    pub fn is_named(self, name: &str) -> (r: bool)
        ensures
            r == (name.spec_bytes() == spec_name(self).spec_bytes()),
    {
        bytes_equal(name.as_bytes(), self.name().as_bytes())
    }
}

/// The length, first and last character of a metamethod's text name.
spec fn spec_text_key(m: MetaMethod) -> (int, char, char) {
    match m {
        MetaMethod::Add => (3, 'a', 'd'),
        MetaMethod::Sub => (3, 's', 'b'),
        MetaMethod::Mul => (3, 'm', 'l'),
        MetaMethod::Div => (3, 'd', 'v'),
        MetaMethod::Mod => (3, 'm', 'd'),
        MetaMethod::Pow => (3, 'p', 'w'),
        MetaMethod::Unm => (3, 'u', 'm'),
        MetaMethod::IDiv => (4, 'i', 'v'),
        MetaMethod::Concat => (6, 'c', 't'),
        MetaMethod::Len => (3, 'l', 'n'),
        MetaMethod::Eq => (2, 'e', 'q'),
        MetaMethod::Lt => (2, 'l', 't'),
        MetaMethod::Le => (2, 'l', 'e'),
        MetaMethod::Index => (5, 'i', 'x'),
        MetaMethod::NewIndex => (8, 'n', 'x'),
        MetaMethod::Call => (4, 'c', 'l'),
        MetaMethod::ToString => (8, 't', 'g'),
        MetaMethod::Iter => (4, 'i', 'r'),
        MetaMethod::Type => (4, 't', 'e'),
    }
}

/// The text name of a metamethod has the length, first and last character
/// of [`spec_text_key`].
proof fn lemma_text_key(m: MetaMethod)
    ensures
        spec_parse_name(m)@.len() == spec_text_key(m).0,
        spec_parse_name(m)@[0] == spec_text_key(m).1,
        spec_parse_name(m)@[spec_parse_name(m)@.len() - 1] == spec_text_key(m).2,
{
    match m {
        MetaMethod::Add => {
            reveal_strlit("add");
        },
        MetaMethod::Sub => {
            reveal_strlit("sub");
        },
        MetaMethod::Mul => {
            reveal_strlit("mul");
        },
        MetaMethod::Div => {
            reveal_strlit("div");
        },
        MetaMethod::Mod => {
            reveal_strlit("mod");
        },
        MetaMethod::Pow => {
            reveal_strlit("pow");
        },
        MetaMethod::Unm => {
            reveal_strlit("unm");
        },
        MetaMethod::IDiv => {
            reveal_strlit("idiv");
        },
        MetaMethod::Concat => {
            reveal_strlit("concat");
        },
        MetaMethod::Len => {
            reveal_strlit("len");
        },
        MetaMethod::Eq => {
            reveal_strlit("eq");
        },
        MetaMethod::Lt => {
            reveal_strlit("lt");
        },
        MetaMethod::Le => {
            reveal_strlit("le");
        },
        MetaMethod::Index => {
            reveal_strlit("index");
        },
        MetaMethod::NewIndex => {
            reveal_strlit("newindex");
        },
        MetaMethod::Call => {
            reveal_strlit("call");
        },
        MetaMethod::ToString => {
            reveal_strlit("tostring");
        },
        MetaMethod::Iter => {
            reveal_strlit("iter");
        },
        MetaMethod::Type => {
            reveal_strlit("type");
        },
    }
}

/// Different metamethods have different text names.
proof fn lemma_text_names_distinct(a: MetaMethod, b: MetaMethod)
    requires
        spec_parse_name(a)@ == spec_parse_name(b)@,
    ensures
        a == b,
{
    lemma_text_key(a);
    lemma_text_key(b);
    assert(spec_text_key(a) == spec_text_key(b));
}

/// Reading a metamethod's text name back with [`MetaMethod::from_str`]
/// gives the same metamethod.
pub proof fn law_text_name_round_trip(m: MetaMethod, r: Option<MetaMethod>)
    requires
        r matches Some(x) ==> spec_parse_name(m).spec_bytes() == spec_parse_name(x).spec_bytes(),
        r is None ==> forall|x: MetaMethod| spec_parse_name(m).spec_bytes() != #[trigger] spec_parse_name(x).spec_bytes(),
    ensures
        r == Some(m),
{
    if let Some(x) = r {
        vstd::utf8::encode_utf8_decode_utf8(spec_parse_name(m)@);
        vstd::utf8::encode_utf8_decode_utf8(spec_parse_name(x)@);
        lemma_text_names_distinct(m, x);
    } else {
        assert(spec_parse_name(m).spec_bytes() == spec_parse_name(m).spec_bytes());
    }
}

/// Every metamethod's metatable name is `__` followed by its text name.
pub proof fn law_name_is_prefixed(m: MetaMethod)
    ensures
        spec_name(m)@ == "__"@ + spec_parse_name(m)@,
{
    reveal_strlit("__");
    match m {
        MetaMethod::Add => {
            reveal_strlit("__add");
            reveal_strlit("add");
            assert(spec_name(m)@ =~= "__"@ + spec_parse_name(m)@);
        },
        MetaMethod::Sub => {
            reveal_strlit("__sub");
            reveal_strlit("sub");
            assert(spec_name(m)@ =~= "__"@ + spec_parse_name(m)@);
        },
        MetaMethod::Mul => {
            reveal_strlit("__mul");
            reveal_strlit("mul");
            assert(spec_name(m)@ =~= "__"@ + spec_parse_name(m)@);
        },
        MetaMethod::Div => {
            reveal_strlit("__div");
            reveal_strlit("div");
            assert(spec_name(m)@ =~= "__"@ + spec_parse_name(m)@);
        },
        MetaMethod::Mod => {
            reveal_strlit("__mod");
            reveal_strlit("mod");
            assert(spec_name(m)@ =~= "__"@ + spec_parse_name(m)@);
        },
        MetaMethod::Pow => {
            reveal_strlit("__pow");
            reveal_strlit("pow");
            assert(spec_name(m)@ =~= "__"@ + spec_parse_name(m)@);
        },
        MetaMethod::Unm => {
            reveal_strlit("__unm");
            reveal_strlit("unm");
            assert(spec_name(m)@ =~= "__"@ + spec_parse_name(m)@);
        },
        MetaMethod::IDiv => {
            reveal_strlit("__idiv");
            reveal_strlit("idiv");
            assert(spec_name(m)@ =~= "__"@ + spec_parse_name(m)@);
        },
        MetaMethod::Concat => {
            reveal_strlit("__concat");
            reveal_strlit("concat");
            assert(spec_name(m)@ =~= "__"@ + spec_parse_name(m)@);
        },
        MetaMethod::Len => {
            reveal_strlit("__len");
            reveal_strlit("len");
            assert(spec_name(m)@ =~= "__"@ + spec_parse_name(m)@);
        },
        MetaMethod::Eq => {
            reveal_strlit("__eq");
            reveal_strlit("eq");
            assert(spec_name(m)@ =~= "__"@ + spec_parse_name(m)@);
        },
        MetaMethod::Lt => {
            reveal_strlit("__lt");
            reveal_strlit("lt");
            assert(spec_name(m)@ =~= "__"@ + spec_parse_name(m)@);
        },
        MetaMethod::Le => {
            reveal_strlit("__le");
            reveal_strlit("le");
            assert(spec_name(m)@ =~= "__"@ + spec_parse_name(m)@);
        },
        MetaMethod::Index => {
            reveal_strlit("__index");
            reveal_strlit("index");
            assert(spec_name(m)@ =~= "__"@ + spec_parse_name(m)@);
        },
        MetaMethod::NewIndex => {
            reveal_strlit("__newindex");
            reveal_strlit("newindex");
            assert(spec_name(m)@ =~= "__"@ + spec_parse_name(m)@);
        },
        MetaMethod::Call => {
            reveal_strlit("__call");
            reveal_strlit("call");
            assert(spec_name(m)@ =~= "__"@ + spec_parse_name(m)@);
        },
        MetaMethod::ToString => {
            reveal_strlit("__tostring");
            reveal_strlit("tostring");
            assert(spec_name(m)@ =~= "__"@ + spec_parse_name(m)@);
        },
        MetaMethod::Iter => {
            reveal_strlit("__iter");
            reveal_strlit("iter");
            assert(spec_name(m)@ =~= "__"@ + spec_parse_name(m)@);
        },
        MetaMethod::Type => {
            reveal_strlit("__type");
            reveal_strlit("type");
            assert(spec_name(m)@ =~= "__"@ + spec_parse_name(m)@);
        },
    }
}

} // verus!
