//! Rust callbacks called from Lua: what a call's outcome makes the VM do,
//! and the message of a panic raised as a Lua error. (The callbacks made by
//! scopes, their re-entry guard and their end are kept by the VM state.)

use vstd::prelude::*;
use crate::error::{Error, spec_is_structured, is_structured, spec_error_text};
use crate::multi::MultiValue;

verus! {

/// What the VM does after a callback returned.
#[derive(Debug)]
pub enum CallbackAction {
    /// Return these values to Lua.
    Return(MultiValue),
    /// Raise this error as a structured error object.
    RaiseStructured(Error),
    /// Raise a Lua error with this message.
    Raise(String),
}

/// What the VM does with a callback's outcome: return the values; raise a
/// structured error as an object; raise any other error by its text.
pub fn callback_action(outcome: Result<MultiValue, Error>) -> (r: CallbackAction)
    ensures
        outcome matches Ok(v) ==> (r matches CallbackAction::Return(x) && x@ == v@),
        outcome matches Err(e) ==> (spec_is_structured(e) ==> (r matches CallbackAction::RaiseStructured(x) && x == e)),
        outcome matches Err(e) ==> (!spec_is_structured(e) ==> (r matches CallbackAction::Raise(m) && m@ == spec_error_text(e))),
{
    match outcome {
        Ok(v) => CallbackAction::Return(v),
        Err(e) => {
            if is_structured(&e) {
                CallbackAction::RaiseStructured(e)
            } else {
                CallbackAction::Raise(e.text())
            }
        },
    }
}

/// The message of a panic raised as a Lua error.
pub fn panic_error_message(panic_text: &str) -> (r: String)
    ensures
        r@ == "rust panic: "@ + panic_text@,
{
    proof {
        reveal_strlit("");
        assert(("rust panic: "@ + panic_text@ + ""@) =~= "rust panic: "@ + panic_text@);
    }
    crate::error::concat3("rust panic: ", panic_text, "")
}

} // verus!
