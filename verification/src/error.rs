//! The error type of the runtime and the rules that build and classify errors.

use vstd::prelude::*;

verus! {

/// One diagnostic of the static type analysis, with 1-based positions.
#[derive(Debug)]
pub struct TypeDiagnostic {
    /// The module that produced this diagnostic, when known.
    pub module: Option<String>,
    /// 1-based start line.
    pub line: u32,
    /// 1-based start column.
    pub column: u32,
    /// 1-based end line.
    pub end_line: u32,
    /// 1-based end column.
    pub end_column: u32,
    /// The human-readable message.
    pub message: String,
    /// True when the diagnostic comes from the host definitions.
    pub in_definitions: bool,
}

/// Errors that can occur when interacting with the Lua engine.
///
/// A wrapped outside error (`ExternalError`) is carried by its rendered
/// message: the boxed `std::error::Error` itself lives with the caller.
#[derive(Debug)]
pub enum Error {
    /// A Lua syntax (compile/parse) error.
    SyntaxError { message: String, incomplete_input: bool },
    /// A Lua runtime error.
    RuntimeError(String),
    /// A memory allocation error reported by the VM.
    MemoryError(String),
    /// A Lua value could not be converted into the requested Rust type.
    FromLuaConversionError { from: &'static str, to: String, message: Option<String> },
    /// A Rust value could not be converted into a Lua value.
    ToLuaConversionError { from: &'static str, to: &'static str, message: Option<String> },
    /// A userdata was accessed as the wrong concrete type.
    UserDataTypeMismatch,
    /// A userdata was used after its value had been taken or destructed.
    UserDataDestructed,
    /// A callback or userdata method created by a scope was called after the scope ended.
    CallbackDestructed,
    /// A structured callback error caught at a protected-call boundary.
    CallbackError { traceback: String, cause: Box<Error> },
    /// A userdata could not be borrowed because it is mutably borrowed.
    UserDataBorrowError,
    /// A userdata could not be mutably borrowed because it is borrowed.
    UserDataBorrowMutError,
    /// A coroutine could not be resumed.
    CoroutineUnresumable,
    /// A registry key was used with a VM that does not own it.
    MismatchedRegistryKey,
    /// A mutable callback was called re-entrantly.
    RecursiveMutCallback,
    /// A previously resumed panic was observed again.
    PreviouslyResumedPanic,
    /// An error originating outside Lua, by its message.
    ExternalError(String),
    /// A serialization (Rust to Lua) error.
    SerializeError(String),
    /// A deserialization (Lua to Rust) error.
    DeserializeError(String),
    /// Diagnostics of the static type analysis.
    TypeError(Vec<TypeDiagnostic>),
}

impl Clone for TypeDiagnostic {
    fn clone(&self) -> (r: Self)
        ensures
            r == *self,
    {
        TypeDiagnostic {
            module: self.module.clone(),
            line: self.line,
            column: self.column,
            end_line: self.end_line,
            end_column: self.end_column,
            message: self.message.clone(),
            in_definitions: self.in_definitions,
        }
    }
}

/// Clones a list of diagnostics element by element.
fn clone_diagnostics(v: &Vec<TypeDiagnostic>) -> (r: Vec<TypeDiagnostic>)
    ensures
        r@ == v@,
{
    let mut out: Vec<TypeDiagnostic> = Vec::new();
    let mut i: usize = 0;
    while i < v.len()
        invariant
            i <= v.len(),
            out@ == v@.subrange(0, i as int),
        decreases v.len() - i,
    {
        out.push(v[i].clone());
        i += 1;
    }
    assert(v@.subrange(0, v.len() as int) =~= v@);
    out
}

/// Two errors are the same error: equal, except that diagnostic lists are
/// compared by their contents (a cloned list is a new list with the same
/// diagnostics).
pub open spec fn spec_same_error(a: Error, b: Error) -> bool
    decreases a,
{
    match a {
        Error::TypeError(x) => b matches Error::TypeError(y) && x@ == y@,
        Error::CallbackError { traceback, cause } => match b {
            Error::CallbackError { traceback: t2, cause: c2 } => traceback == t2
                && spec_same_error(*cause, *c2),
            _ => false,
        },
        _ => a == b,
    }
}

/// Every error is the same error as itself.
pub proof fn lemma_same_error_reflexive(e: Error)
    ensures
        spec_same_error(e, e),
    decreases e,
{
    if let Error::CallbackError { cause, .. } = e {
        lemma_same_error_reflexive(*cause);
    }
}

impl Clone for Error {
    fn clone(&self) -> (r: Self)
        ensures
            spec_same_error(r, *self),
        decreases self,
    {
        match self {
            Error::SyntaxError { message, incomplete_input } => Error::SyntaxError {
                message: message.clone(),
                incomplete_input: *incomplete_input,
            },
            Error::RuntimeError(m) => Error::RuntimeError(m.clone()),
            Error::MemoryError(m) => Error::MemoryError(m.clone()),
            Error::FromLuaConversionError { from, to, message } => Error::FromLuaConversionError {
                from: *from,
                to: to.clone(),
                message: message.clone(),
            },
            Error::ToLuaConversionError { from, to, message } => Error::ToLuaConversionError {
                from: *from,
                to: *to,
                message: message.clone(),
            },
            Error::UserDataTypeMismatch => Error::UserDataTypeMismatch,
            Error::UserDataDestructed => Error::UserDataDestructed,
            Error::CallbackDestructed => Error::CallbackDestructed,
            Error::CallbackError { traceback, cause } => Error::CallbackError {
                traceback: traceback.clone(),
                cause: Box::new((**cause).clone()),
            },
            Error::UserDataBorrowError => Error::UserDataBorrowError,
            Error::UserDataBorrowMutError => Error::UserDataBorrowMutError,
            Error::CoroutineUnresumable => Error::CoroutineUnresumable,
            Error::MismatchedRegistryKey => Error::MismatchedRegistryKey,
            Error::RecursiveMutCallback => Error::RecursiveMutCallback,
            Error::PreviouslyResumedPanic => Error::PreviouslyResumedPanic,
            Error::ExternalError(m) => Error::ExternalError(m.clone()),
            Error::SerializeError(m) => Error::SerializeError(m.clone()),
            Error::DeserializeError(m) => Error::DeserializeError(m.clone()),
            Error::TypeError(d) => {
                Error::TypeError(clone_diagnostics(d))
            },
        }
    }
}

/// The result type used throughout the runtime.
pub type Result<T> = core::result::Result<T, Error>;

/// Whether an error must travel across a protected call as a structured
/// error object (so that the caller can match on it) rather than as a flat
/// message: the scope-destruction errors, the re-entrancy error, and a
/// callback error whose cause is itself structured.
pub open spec fn spec_is_structured(err: Error) -> bool
    decreases err,
{
    match err {
        Error::CallbackDestructed => true,
        Error::UserDataDestructed => true,
        Error::RecursiveMutCallback => true,
        Error::CallbackError { traceback, cause } => spec_is_structured(*cause),
        _ => false,
    }
}

/// Whether `err` is raised as a structured error object.
pub fn is_structured(err: &Error) -> (r: bool)
    ensures
        r == spec_is_structured(*err),
    decreases err,
{
    match err {
        Error::CallbackDestructed | Error::UserDataDestructed | Error::RecursiveMutCallback => true,
        Error::CallbackError { cause, .. } => is_structured(cause),
        _ => false,
    }
}

impl Error {
    /// A [`Error::RuntimeError`] carrying `message`.
    pub fn runtime(message: &str) -> (e: Error)
        ensures
            e matches Error::RuntimeError(m) && m@ == message@,
    {
        Error::RuntimeError(message.to_owned())
    }

    /// Wraps an outside error: an error of the runtime passes through as it
    /// is (it is not wrapped twice); another becomes an
    /// [`Error::ExternalError`] carrying its message.
    pub fn external(err: OutsideError) -> (e: Error)
        ensures
            err matches OutsideError::Runtime(x) ==> e == x,
            err matches OutsideError::Other(m) ==> e == Error::ExternalError(m),
    {
        match err {
            OutsideError::Runtime(x) => x,
            OutsideError::Other(m) => Error::ExternalError(m),
        }
    }
}

/// An error handed to the runtime from outside: one of the runtime's own
/// errors, or another error by its message.
#[derive(Debug)]
pub enum OutsideError {
    Runtime(Error),
    Other(String),
}

/// The decimal digit `d` as a character.
pub open spec fn spec_digit(d: int) -> char {
    if d == 0 { '0' } else if d == 1 { '1' } else if d == 2 { '2' } else if d == 3 { '3' } else if d == 4 {
        '4'
    } else if d == 5 { '5' } else if d == 6 { '6' } else if d == 7 { '7' } else if d == 8 { '8' } else { '9' }
}

/// The decimal digits of a natural number, without sign.
pub open spec fn spec_digits(n: nat) -> Seq<char>
    decreases n,
{
    if n < 10 {
        seq![spec_digit(n as int)]
    } else {
        spec_digits((n / 10) as nat).push(spec_digit((n % 10) as int))
    }
}

/// The decimal text of an integer, with a leading `-` when negative.
pub open spec fn spec_decimal(i: int) -> Seq<char> {
    if i < 0 {
        seq!['-'] + spec_digits((-i) as nat)
    } else {
        spec_digits(i as nat)
    }
}

/// The decimal digit `d` as text.
fn digit_text(d: u64) -> (r: &'static str)
    requires
        d < 10,
    ensures
        r@ == seq![spec_digit(d as int)],
{
    proof {
        reveal_strlit("0");
        reveal_strlit("1");
        reveal_strlit("2");
        reveal_strlit("3");
        reveal_strlit("4");
        reveal_strlit("5");
        reveal_strlit("6");
        reveal_strlit("7");
        reveal_strlit("8");
        reveal_strlit("9");
    }
    if d == 0 {
        "0"
    } else if d == 1 {
        "1"
    } else if d == 2 {
        "2"
    } else if d == 3 {
        "3"
    } else if d == 4 {
        "4"
    } else if d == 5 {
        "5"
    } else if d == 6 {
        "6"
    } else if d == 7 {
        "7"
    } else if d == 8 {
        "8"
    } else {
        "9"
    }
}

/// The decimal digits of `n`.
fn digits(n: u64) -> (r: String)
    ensures
        r@ == spec_digits(n as nat),
    decreases n,
{
    if n < 10 {
        String::from_str(digit_text(n))
    } else {
        let mut s = digits(n / 10);
        s.append(digit_text(n % 10));
        s
    }
}

/// The decimal text of `i`, with a leading `-` when negative.
pub(crate) fn decimal(i: i64) -> (r: String)
    ensures
        r@ == spec_decimal(i as int),
{
    if i < 0 {
        let n: u64 = (-(i as i128)) as u64;
        proof {
            reveal_strlit("-");
        }
        let mut s = String::from_str("-");
        let d = digits(n);
        s.append(d.as_str());
        s
    } else {
        digits(i as u64)
    }
}

/// The three texts one after the other.
pub(crate) fn concat3(a: &str, b: &str, c: &str) -> (r: String)
    ensures
        r@ == a@ + b@ + c@,
{
    let mut s = String::from_str(a);
    s.append(b);
    s.append(c);
    s
}

/// The ` (message)` suffix of a conversion error, when it has a message.
pub open spec fn spec_opt_message(m: Option<String>) -> Seq<char> {
    match m {
        Some(x) => " ("@ + x@ + ")"@,
        None => Seq::empty(),
    }
}

/// The text of a list of diagnostics: each on a new line, indented.
pub open spec fn spec_diagnostics_text(ds: Seq<TypeDiagnostic>) -> Seq<char>
    decreases ds.len(),
{
    if ds.len() == 0 {
        Seq::empty()
    } else {
        spec_diagnostics_text(ds.drop_last()) + "\n  "@ + crate::typecheck::spec_diagnostic_text(ds.last())
    }
}

/// The text of an error, as it prints.
pub open spec fn spec_error_text(e: Error) -> Seq<char>
    decreases e,
{
    match e {
        Error::SyntaxError { message, incomplete_input } => "syntax error: "@ + message@,
        Error::RuntimeError(m) => "runtime error: "@ + m@,
        Error::MemoryError(m) => "memory error: "@ + m@,
        Error::FromLuaConversionError { from, to, message } => "error converting Lua "@ + from@ + " to "@ + to@
            + spec_opt_message(message),
        Error::ToLuaConversionError { from, to, message } => "error converting "@ + from@ + " to Lua "@ + to@
            + spec_opt_message(message),
        Error::UserDataTypeMismatch => "userdata type mismatch"@,
        Error::UserDataDestructed => "userdata used after being destructed"@,
        Error::CallbackDestructed => "a destructed callback or destructed userdata method was called"@,
        Error::CallbackError { traceback, cause } => (match *cause {
            Error::CallbackError { .. } => spec_error_text(*cause),
            Error::RuntimeError(m) => "runtime error: "@ + m@ + "\n"@,
            _ => spec_error_text(*cause),
        }) + traceback@,
        Error::UserDataBorrowError => "userdata already mutably borrowed"@,
        Error::UserDataBorrowMutError => "userdata already borrowed"@,
        Error::CoroutineUnresumable => "cannot resume this coroutine"@,
        Error::MismatchedRegistryKey => "registry key used with the wrong Lua instance"@,
        Error::RecursiveMutCallback => "mutable callback called recursively"@,
        Error::PreviouslyResumedPanic => "previously resumed panic returned again"@,
        Error::ExternalError(m) => m@,
        Error::SerializeError(m) => "serialize error: "@ + m@,
        Error::DeserializeError(m) => "deserialize error: "@ + m@,
        Error::TypeError(ds) => "type error(s):"@ + spec_diagnostics_text(ds@),
    }
}

/// The ` (message)` suffix of a conversion error.
fn opt_message(m: &Option<String>) -> (r: String)
    ensures
        r@ == spec_opt_message(*m),
{
    match m {
        Some(x) => concat3(" (", x.as_str(), ")"),
        None => String::new(),
    }
}

/// The text of a list of diagnostics.
fn diagnostics_text(ds: &Vec<TypeDiagnostic>) -> (r: String)
    ensures
        r@ == spec_diagnostics_text(ds@),
{
    let mut out = String::new();
    let mut i: usize = 0;
    while i < ds.len()
        invariant
            i <= ds@.len(),
            out@ == spec_diagnostics_text(ds@.subrange(0, i as int)),
        decreases ds.len() - i,
    {
        let d = ds[i].text();
        let next = concat3(out.as_str(), "\n  ", d.as_str());
        assert(ds@.subrange(0, i + 1).drop_last() =~= ds@.subrange(0, i as int));
        out = next;
        i += 1;
    }
    assert(ds@.subrange(0, ds@.len() as int) =~= ds@);
    out
}

impl Error {
    /// The text of the error, as it prints.
    pub fn text(&self) -> (r: String)
        ensures
            r@ == spec_error_text(*self),
        decreases self,
    {
        proof {
            reveal_strlit("");
            assert(""@ =~= Seq::<char>::empty());
        }
        match self {
            Error::SyntaxError { message, .. } => concat3("syntax error: ", message.as_str(), ""),
            Error::RuntimeError(m) => concat3("runtime error: ", m.as_str(), ""),
            Error::MemoryError(m) => concat3("memory error: ", m.as_str(), ""),
            Error::FromLuaConversionError { from, to, message } => {
                let a = concat3("error converting Lua ", from, " to ");
                let b = opt_message(message);
                concat3(a.as_str(), to.as_str(), b.as_str())
            },
            Error::ToLuaConversionError { from, to, message } => {
                let a = concat3("error converting ", from, " to Lua ");
                let b = opt_message(message);
                concat3(a.as_str(), to, b.as_str())
            },
            Error::UserDataTypeMismatch => concat3("userdata type mismatch", "", ""),
            Error::UserDataDestructed => concat3("userdata used after being destructed", "", ""),
            Error::CallbackDestructed => concat3("a destructed callback or destructed userdata method was called", "", ""),
            Error::CallbackError { traceback, cause } => {
                let head = match &**cause {
                    Error::CallbackError { .. } => cause.text(),
                    Error::RuntimeError(m) => concat3("runtime error: ", m.as_str(), "\n"),
                    _ => cause.text(),
                };
                concat3(head.as_str(), traceback.as_str(), "")
            },
            Error::UserDataBorrowError => concat3("userdata already mutably borrowed", "", ""),
            Error::UserDataBorrowMutError => concat3("userdata already borrowed", "", ""),
            Error::CoroutineUnresumable => concat3("cannot resume this coroutine", "", ""),
            Error::MismatchedRegistryKey => concat3("registry key used with the wrong Lua instance", "", ""),
            Error::RecursiveMutCallback => concat3("mutable callback called recursively", "", ""),
            Error::PreviouslyResumedPanic => concat3("previously resumed panic returned again", "", ""),
            Error::ExternalError(m) => concat3(m.as_str(), "", ""),
            Error::SerializeError(m) => concat3("serialize error: ", m.as_str(), ""),
            Error::DeserializeError(m) => concat3("deserialize error: ", m.as_str(), ""),
            Error::TypeError(ds) => {
                let t = diagnostics_text(ds);
                concat3("type error(s):", t.as_str(), "")
            },
        }
    }
}

/// A value that becomes an error of the runtime (an outside error, by its
/// message).
pub trait ExternalError {
    /// The error.
    fn into_lua_err(self) -> Error;
}

impl ExternalError for String {
    fn into_lua_err(self) -> (e: Error)
        ensures
            e == Error::ExternalError(self),
    {
        Error::ExternalError(self)
    }
}

impl ExternalError for &str {
    fn into_lua_err(self) -> (e: Error)
        ensures
            e matches Error::ExternalError(m) && m@ == self@,
    {
        Error::ExternalError(self.to_owned())
    }
}

/// A result whose error becomes an error of the runtime.
pub trait ExternalResult<T> {
    /// The result with its error converted.
    fn into_lua_err(self) -> core::result::Result<T, Error>;
}

impl<T> ExternalResult<T> for core::result::Result<T, String> {
    fn into_lua_err(self) -> (r: core::result::Result<T, Error>)
        ensures
            self matches Ok(v) ==> (r matches Ok(x) && x == v),
            self matches Err(m) ==> (r matches Err(e) && e == Error::ExternalError(m)),
    {
        match self {
            Ok(v) => Ok(v),
            Err(m) => Err(Error::ExternalError(m)),
        }
    }
}

/// The status with which the VM reports that it ran out of memory.
pub const STATUS_OUT_OF_MEMORY: i32 = 4;

/// What a failed call left on top of the VM's stack, as the runtime reads
/// it.
#[derive(Debug)]
pub enum ErrorObject {
    /// A structured error raised by the runtime, with the traceback taken
    /// before it was popped.
    Structured { cause: Error, traceback: String },
    /// An error object that reads as a string, by its bytes.
    Text(Vec<u8>),
    /// Any other error object.
    Other,
}

/// The message of an error object that is not structured: its bytes read
/// as UTF-8 (an invalid sequence becoming U+FFFD), or a placeholder for an
/// object that is not a string.
pub open spec fn spec_error_object_message(o: ErrorObject) -> Seq<char> {
    match o {
        ErrorObject::Text(b) => crate::string::spec_utf8_lossy(b@),
        _ => "<non-string error>"@,
    }
}

/// The error of a failed call: a structured error comes back wrapped as the
/// cause of a callback error, with its traceback; another is a memory error
/// when the VM ran out of memory (by its status or its message), else a
/// runtime error, carrying the object's message.
pub fn pop_error(status: i32, object: ErrorObject) -> (e: Error)
    ensures
        object matches ErrorObject::Structured { cause, traceback } ==> (e matches Error::CallbackError {
            traceback: t,
            cause: c,
        } && t == traceback && *c == cause),
        !(object is Structured) && (status == STATUS_OUT_OF_MEMORY || spec_error_object_message(object)
            == "not enough memory"@) ==> (e matches Error::MemoryError(m) && m@ == spec_error_object_message(object)),
        !(object is Structured) && !(status == STATUS_OUT_OF_MEMORY || spec_error_object_message(object)
            == "not enough memory"@) ==> (e matches Error::RuntimeError(m) && m@ == spec_error_object_message(object)),
{
    let msg = match object {
        ErrorObject::Structured { cause, traceback } => {
            return Error::CallbackError { traceback, cause: Box::new(cause) };
        },
        ErrorObject::Text(b) => crate::string::utf8_lossy(b.as_slice()),
        ErrorObject::Other => String::from_str("<non-string error>"),
    };
    if status == STATUS_OUT_OF_MEMORY || crate::string::same_text(msg.as_str(), "not enough memory") {
        Error::MemoryError(msg)
    } else {
        Error::RuntimeError(msg)
    }
}

} // verus!
