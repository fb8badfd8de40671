//! How a module-aware check resolves the argument of a `require` to one of
//! the modules the host gave it, for the path shapes host-embedded scripts
//! use: `require("@alias")`, `require("literal/name")`, `require(game.X)`,
//! `require(script.Parent.X)` and `require(game:GetService("S").X)`.

use vstd::prelude::*;

verus! {

/// A module the check knows of: its name and whether it is optional.
#[derive(Debug)]
pub struct ModuleInfo {
    pub name: String,
    pub optional: bool,
}

/// The argument of a `require`, by its shape. For an index or a call, the
/// module the indexed (or called) expression resolved to is the context.
#[derive(Debug)]
pub enum RequireExpr {
    /// A constant string.
    ConstantString(String),
    /// A global name.
    Global(String),
    /// `context.Name`.
    IndexName(String),
    /// `context["name"]`, with a constant string index.
    IndexString(String),
    /// A call on the context: whether it is a method call (`:`), the name
    /// of the method when the callee is `x.Name`, and the first argument
    /// when it is a constant string.
    Call { is_self: bool, method: Option<String>, first_arg: Option<String> },
    /// Any other expression.
    Other,
}

/// `p` starts `s`.
pub open spec fn spec_starts_with(s: Seq<char>, p: Seq<char>) -> bool {
    p.len() <= s.len() && s.subrange(0, p.len() as int) == p
}

/// The names of the modules given.
pub open spec fn spec_names(known: Seq<String>) -> Seq<Seq<char>> {
    known.map_values(|m: String| m@)
}

/// `name` is a module given, or (with `allow_prefix`) the parent of one.
pub open spec fn spec_is_known(name: Seq<char>, allow_prefix: bool, known: Seq<Seq<char>>) -> bool {
    known.contains(name) || (allow_prefix && exists|i: int|
        0 <= i < known.len() && spec_starts_with(#[trigger] known[i], name + "/"@))
}

/// The module named `name`, when it is known, as a name and whether it is
/// optional (it is not).
pub open spec fn spec_known_module(name: Seq<char>, allow_prefix: bool, known: Seq<Seq<char>>) -> Option<(Seq<char>, bool)> {
    if spec_is_known(name, allow_prefix, known) {
        Some((name, false))
    } else {
        None
    }
}

/// The position of the last `/` of `s`.
pub open spec fn spec_last_slash(s: Seq<char>) -> Option<int>
    decreases s.len(),
{
    if s.len() == 0 {
        None
    } else if s.last() == '/' {
        Some(s.len() - 1)
    } else {
        spec_last_slash(s.drop_last())
    }
}

/// A module as a name and whether it is optional.
pub open spec fn spec_module(m: Option<&ModuleInfo>) -> Option<(Seq<char>, bool)> {
    match m {
        Some(x) => Some((x.name@, x.optional)),
        None => None,
    }
}

/// What a `require` argument resolves to, in `context`, among the modules
/// named `known`: a constant string names a module given; the global
/// `script` is the context and another global names a module (or a parent
/// of one); `Parent` of the context cuts its last path part; another index
/// names a child of the context; `game:GetService("S")` names `game/S`.
pub open spec fn spec_resolve_module(
    context: Option<(Seq<char>, bool)>,
    expr: RequireExpr,
    known: Seq<Seq<char>>,
) -> Option<(Seq<char>, bool)> {
    match expr {
        RequireExpr::ConstantString(s) => spec_known_module(s@, false, known),
        RequireExpr::Global(g) => if g@ == "script"@ {
            context
        } else {
            spec_known_module(g@, true, known)
        },
        RequireExpr::IndexName(n) => match context {
            None => None,
            Some(c) => if n@ == "Parent"@ {
                match spec_last_slash(c.0) {
                    Some(i) => Some((c.0.subrange(0, i), c.1)),
                    None => None,
                }
            } else {
                spec_known_module(c.0 + "/"@ + n@, true, known)
            },
        },
        RequireExpr::IndexString(n) => match context {
            None => None,
            Some(c) => spec_known_module(c.0 + "/"@ + n@, true, known),
        },
        RequireExpr::Call { is_self, method, first_arg } => match context {
            None => None,
            Some(c) => if is_self && c.0 == "game"@ && (method matches Some(m) && m@ == "GetService"@)
                && first_arg is Some {
                spec_known_module("game/"@ + first_arg->Some_0@, true, known)
            } else {
                None
            },
        },
        RequireExpr::Other => None,
    }
}

/// Whether `p` starts `s`.
fn starts_with(s: &str, p: &str) -> (r: bool)
    ensures
        r == spec_starts_with(s@, p@),
{
    let n = p.unicode_len();
    if n > s.unicode_len() {
        return false;
    }
    let mut i: usize = 0;
    while i < n
        invariant
            n == p@.len(),
            n <= s@.len(),
            i <= n,
            forall|j: int| 0 <= j < i ==> s@[j] == p@[j],
        decreases n - i,
    {
        if s.get_char(i) != p.get_char(i) {
            assert(s@.subrange(0, n as int)[i as int] != p@[i as int]);
            return false;
        }
        i += 1;
    }
    assert(s@.subrange(0, n as int) =~= p@);
    true
}

/// The position of the last `/` of `s`.
fn last_slash(s: &str) -> (r: Option<usize>)
    ensures
        r matches Some(i) ==> i < s@.len() && spec_last_slash(s@) == Some(i as int),
        r is None ==> spec_last_slash(s@) is None,
{
    let mut n = s.unicode_len();
    assert(s@.subrange(0, n as int) =~= s@);
    while n > 0
        invariant
            n <= s@.len(),
            spec_last_slash(s@) == spec_last_slash(s@.subrange(0, n as int)),
        decreases n,
    {
        let ghost pre = s@.subrange(0, n as int);
        assert(pre.drop_last() =~= s@.subrange(0, n - 1));
        if s.get_char(n - 1) == '/' {
            return Some(n - 1);
        }
        n -= 1;
    }
    assert(s@.subrange(0, 0) =~= Seq::<char>::empty());
    None
}

/// `a`, then `b`, then `c`.
fn join3(a: &str, b: &str, c: &str) -> (r: String)
    ensures
        r@ == a@ + b@ + c@,
{
    crate::error::concat3(a, b, c)
}

/// The module named `name` when one of the modules given is named so or,
/// with `allow_prefix`, lies under it.
pub fn module_info_if_known(name: String, allow_prefix: bool, known: &Vec<String>) -> (r: Option<ModuleInfo>)
    ensures
        spec_module(match r {
            Some(ref m) => Some(m),
            None => None,
        }) == spec_known_module(name@, allow_prefix, spec_names(known@)),
{
    let ghost names = spec_names(known@);
    let child = join3(name.as_str(), "/", "");
    proof {
        reveal_strlit("");
        assert(child@ =~= name@ + "/"@);
    }
    let mut found = false;
    let mut i: usize = 0;
    while i < known.len()
        invariant
            i <= known@.len(),
            names == spec_names(known@),
            child@ == name@ + "/"@,
            found == (exists|j: int| 0 <= j < i && (names[j] == name@ || (allow_prefix && spec_starts_with(
                #[trigger] names[j],
                child@,
            )))),
        decreases known.len() - i,
    {
        let m = &known[i];
        assert(names[i as int] == m@);
        if crate::string::same_text(m.as_str(), name.as_str()) || (allow_prefix && starts_with(m.as_str(), child.as_str())) {
            found = true;
        }
        i += 1;
    }
    proof {
        if found {
            let j = choose|j: int| 0 <= j < known@.len() && (names[j] == name@ || (allow_prefix && spec_starts_with(
                #[trigger] names[j],
                child@,
            )));
            if names[j] == name@ {
                assert(names.contains(name@));
            }
        } else {
            if names.contains(name@) {
                let j = choose|j: int| 0 <= j < names.len() && names[j] == name@;
                assert(spec_starts_with(names[j], child@) || names[j] == name@);
            }
        }
    }
    if found {
        Some(ModuleInfo { name, optional: false })
    } else {
        None
    }
}

/// Resolves `context:Method(arg)`: only `game:GetService("S")`, naming
/// `game/S`.
fn resolve_call(
    context: Option<&ModuleInfo>,
    is_self: bool,
    method: &Option<String>,
    first_arg: &Option<String>,
    known: &Vec<String>,
) -> (r: Option<ModuleInfo>)
    ensures
        spec_module(match r {
            Some(ref m) => Some(m),
            None => None,
        }) == spec_resolve_module(
            spec_module(context),
            RequireExpr::Call { is_self, method: *method, first_arg: *first_arg },
            spec_names(known@),
        ),
{
    let c = match context {
        Some(c) => c,
        None => {
            return None;
        },
    };
    let is_get_service = match method {
        Some(m) => crate::string::same_text(m.as_str(), "GetService"),
        None => false,
    };
    if is_self && crate::string::same_text(c.name.as_str(), "game") && is_get_service {
        match first_arg {
            Some(a) => {
                let name = join3("game/", a.as_str(), "");
                proof {
                    reveal_strlit("");
                    assert(name@ =~= "game/"@ + a@);
                }
                module_info_if_known(name, true, known)
            },
            None => None,
        }
    } else {
        None
    }
}

/// Resolves the argument of a `require` in `context` among the modules
/// `known` (see [`spec_resolve_module`]).
pub fn resolve_module(context: Option<&ModuleInfo>, expr: &RequireExpr, known: &Vec<String>) -> (r: Option<ModuleInfo>)
    ensures
        spec_module(match r {
            Some(ref m) => Some(m),
            None => None,
        }) == spec_resolve_module(spec_module(context), *expr, spec_names(known@)),
{
    match expr {
        RequireExpr::ConstantString(s) => {
            let name = s.clone();
            assert(name@ == s@);
            module_info_if_known(name, false, known)
        },
        RequireExpr::Global(g) => {
            if crate::string::same_text(g.as_str(), "script") {
                match context {
                    Some(c) => {
                        let m = ModuleInfo { name: c.name.clone(), optional: c.optional };
                        assert(m.name@ =~= c.name@);
                        Some(m)
                    },
                    None => None,
                }
            } else {
                let name = g.clone();
                assert(name@ == g@);
                module_info_if_known(name, true, known)
            }
        },
        RequireExpr::IndexName(n) => {
            let c = match context {
                Some(c) => c,
                None => {
                    return None;
                },
            };
            if crate::string::same_text(n.as_str(), "Parent") {
                match last_slash(c.name.as_str()) {
                    Some(i) => {
                        let parent = c.name.as_str().substring_char(0, i);
                        let m = ModuleInfo { name: String::from_str(parent), optional: c.optional };
                        assert(m.name@ =~= c.name@.subrange(0, i as int));
                        Some(m)
                    },
                    None => None,
                }
            } else {
                module_info_if_known(join3(c.name.as_str(), "/", n.as_str()), true, known)
            }
        },
        RequireExpr::IndexString(n) => {
            match context {
                Some(c) => module_info_if_known(join3(c.name.as_str(), "/", n.as_str()), true, known),
                None => None,
            }
        },
        RequireExpr::Call { is_self, method, first_arg } => resolve_call(context, *is_self, method, first_arg, known),
        RequireExpr::Other => None,
    }
}

} // verus!
