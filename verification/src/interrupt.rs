//! The interrupt callback of a VM: the slot that holds it, taken out while
//! it runs and put back only if nobody replaced it meanwhile, and what the
//! VM does with the callback's answer.

use vstd::prelude::*;
use crate::error::Error;

verus! {

/// What an interrupt callback asks of the VM.
#[derive(Debug, Clone, Copy, PartialEq, Eq, Structural)]
pub enum VmState {
    /// Keep running.
    Continue,
    /// Yield the running coroutine, if it can yield.
    Yield,
}

/// The slot of a VM's interrupt callback (by identity), with the revision
/// that every installation or removal advances.
#[derive(Debug)]
pub struct InterruptSlot {
    pub(crate) callback: Option<u64>,
    pub(crate) revision: u64,
}

/// What the VM does after the callback answered.
#[derive(Debug)]
pub enum InterruptAction {
    /// Nothing: execution continues.
    Continue,
    /// Suspend the running coroutine at this point.
    Break,
    /// Raise a Lua error with this message.
    Raise(String),
}

/// The message an error is raised with: a runtime error's own message,
/// otherwise the error's text.
pub open spec fn spec_raise_message(e: Error) -> Seq<char> {
    match e {
        Error::RuntimeError(m) => m@,
        _ => crate::error::spec_error_text(e),
    }
}

/// The message an error is raised with.
pub fn raise_message(e: &Error) -> (r: String)
    ensures
        r@ == spec_raise_message(*e),
{
    match e {
        Error::RuntimeError(m) => m.clone(),
        _ => e.text(),
    }
}

/// What the VM does with the callback's answer: continue; break when asked
/// to yield and the coroutine can yield (otherwise continue); raise an error.
pub fn interrupt_action(answer: Result<VmState, Error>, yieldable: bool) -> (r: InterruptAction)
    ensures
        answer == Ok::<VmState, Error>(VmState::Continue) ==> r is Continue,
        answer == Ok::<VmState, Error>(VmState::Yield) ==> (if yieldable { r is Break } else { r is Continue }),
        answer matches Err(e) ==> (r matches InterruptAction::Raise(m) && m@ == spec_raise_message(e)),
{
    match answer {
        Ok(VmState::Continue) => InterruptAction::Continue,
        Ok(VmState::Yield) => {
            if yieldable {
                InterruptAction::Break
            } else {
                InterruptAction::Continue
            }
        },
        Err(e) => InterruptAction::Raise(raise_message(&e)),
    }
}

/// Whether an interrupt call is for the GC (a non-negative code): those are
/// ignored.
pub fn is_gc_interrupt(gc: i32) -> (r: bool)
    ensures
        r == (gc >= 0),
{
    gc >= 0
}

impl InterruptSlot {
    /// An empty slot.
    pub fn new() -> (r: InterruptSlot)
        ensures
            r.spec_callback() is None,
            r.spec_revision() == 0,
    {
        InterruptSlot { callback: None, revision: 0 }
    }

    /// The callback installed.
    pub closed spec fn spec_callback(&self) -> Option<u64> {
        self.callback
    }

    /// The revision of the slot.
    pub closed spec fn spec_revision(&self) -> u64 {
        self.revision
    }

    /// Installs `callback`, replacing any other.
    pub fn set_interrupt(&mut self, callback: u64)
        requires
            old(self).spec_revision() < u64::MAX,
        ensures
            final(self).spec_callback() == Some(callback),
            final(self).spec_revision() == old(self).spec_revision() + 1,
    {
        self.callback = Some(callback);
        self.revision = self.revision + 1;
    }

    /// Removes the callback.
    pub fn remove_interrupt(&mut self)
        requires
            old(self).spec_revision() < u64::MAX,
        ensures
            final(self).spec_callback() is None,
            final(self).spec_revision() == old(self).spec_revision() + 1,
    {
        self.callback = None;
        self.revision = self.revision + 1;
    }

    /// Takes the callback out to run it, with the revision seen.
    pub fn take_for_call(&mut self) -> (r: (Option<u64>, u64))
        ensures
            r.0 == old(self).spec_callback(),
            r.1 == old(self).spec_revision(),
            final(self).spec_callback() is None,
            final(self).spec_revision() == old(self).spec_revision(),
    {
        let cb = self.callback;
        self.callback = None;
        (cb, self.revision)
    }

    /// Puts the callback back after its run, unless the slot was changed
    /// meanwhile (its revision moved).
    pub fn restore_if_untouched(&mut self, callback: u64, revision: u64)
        ensures
            old(self).spec_revision() == revision ==> final(self).spec_callback() == Some(callback),
            old(self).spec_revision() != revision ==> final(self).spec_callback() == old(self).spec_callback(),
            final(self).spec_revision() == old(self).spec_revision(),
    {
        if self.revision == revision {
            self.callback = Some(callback);
        }
    }
}

/// Running the callback leaves the slot as it was when nobody touched it:
/// taking it out and putting it back restores the callback.
pub proof fn law_untouched_call_restores(slot: InterruptSlot, taken: InterruptSlot, back: InterruptSlot, cb: u64)
    requires
        slot.spec_callback() == Some(cb),
        taken.spec_callback() is None,
        taken.spec_revision() == slot.spec_revision(),
        back.spec_callback() == (if taken.spec_revision() == slot.spec_revision() { Some(cb) } else { taken.spec_callback() }),
    ensures
        back.spec_callback() == slot.spec_callback(),
{
}

} // verus!
