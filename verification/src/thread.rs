//! Coroutines: their status as the VM reports it, and the decisions taken
//! around a resume (may it start, what does its status code mean).

use vstd::prelude::*;
use crate::error::Error;
use crate::multi::MultiValue;
use crate::value::{ObjectId, Value};

verus! {

/// The status code of a finished resume: success.
pub const STATUS_OK: i32 = 0;
/// The status code of a finished resume: the coroutine yielded.
pub const STATUS_YIELD: i32 = 1;
/// The status code of an out-of-memory error.
pub const STATUS_ERRMEM: i32 = 4;
/// The status code of an interrupt-driven yield.
pub const STATUS_BREAK: i32 = 6;

/// The status of a coroutine.
#[derive(Debug, Clone, Copy, PartialEq, Eq, Structural)]
pub enum ThreadStatus {
    /// Suspended (or new) and ready to resume.
    Resumable,
    /// Currently running.
    Running,
    /// Active but not running (it resumed another coroutine).
    Normal,
    /// Finished its body.
    Finished,
    /// Stopped by an error.
    Error,
}

/// The status that the VM's codes describe: the running state itself is
/// running; an interrupt-suspended coroutine is resumable; otherwise the
/// coroutine status code decides, and an unknown code falls back to the raw
/// status (a yield or a pending body is resumable, an empty stack finished).
pub open spec fn spec_status(is_current: bool, raw_status: i32, costatus: i32, top: i32) -> ThreadStatus {
    if is_current {
        ThreadStatus::Running
    } else if raw_status == STATUS_BREAK {
        ThreadStatus::Resumable
    } else if costatus == 1 {
        ThreadStatus::Resumable
    } else if costatus == 0 {
        ThreadStatus::Running
    } else if costatus == 2 {
        ThreadStatus::Normal
    } else if costatus == 3 {
        ThreadStatus::Finished
    } else if costatus == 4 {
        ThreadStatus::Error
    } else if raw_status == STATUS_YIELD {
        ThreadStatus::Resumable
    } else if raw_status == STATUS_OK {
        if top > 0 { ThreadStatus::Resumable } else { ThreadStatus::Finished }
    } else {
        ThreadStatus::Error
    }
}

/// The status of a coroutine from the VM's codes.
pub fn status_from_codes(is_current: bool, raw_status: i32, costatus: i32, top: i32) -> (r: ThreadStatus)
    ensures
        r == spec_status(is_current, raw_status, costatus, top),
{
    if is_current {
        return ThreadStatus::Running;
    }
    if raw_status == STATUS_BREAK {
        return ThreadStatus::Resumable;
    }
    match costatus {
        1 => ThreadStatus::Resumable,
        0 => ThreadStatus::Running,
        2 => ThreadStatus::Normal,
        3 => ThreadStatus::Finished,
        4 => ThreadStatus::Error,
        _ => {
            if raw_status == STATUS_YIELD {
                ThreadStatus::Resumable
            } else if raw_status == STATUS_OK {
                if top > 0 { ThreadStatus::Resumable } else { ThreadStatus::Finished }
            } else {
                ThreadStatus::Error
            }
        },
    }
}

/// What a finished resume means.
#[derive(Debug)]
pub enum ResumeOutcome {
    /// The coroutine raised an error; its error object is to be taken.
    Failed,
    /// An interrupt suspended it: no value, and its registers stay live.
    Interrupted,
    /// It yielded or returned values, which are to be collected.
    Produced,
}

/// The meaning of a resume's status code.
pub open spec fn spec_resume_outcome(status: i32) -> ResumeOutcome {
    if status != STATUS_OK && status != STATUS_YIELD && status != STATUS_BREAK {
        ResumeOutcome::Failed
    } else if status == STATUS_BREAK {
        ResumeOutcome::Interrupted
    } else {
        ResumeOutcome::Produced
    }
}

/// The meaning of a resume's status code.
pub fn resume_outcome(status: i32) -> (r: ResumeOutcome)
    ensures
        r == spec_resume_outcome(status),
{
    if status != STATUS_OK && status != STATUS_YIELD && status != STATUS_BREAK {
        ResumeOutcome::Failed
    } else if status == STATUS_BREAK {
        ResumeOutcome::Interrupted
    } else {
        ResumeOutcome::Produced
    }
}

/// What a resume hands to the VM.
#[derive(Debug)]
pub enum ResumeRequest {
    /// Resume with these arguments.
    Args(MultiValue),
    /// Resume by raising this error inside the coroutine.
    RaiseError(Value),
}

/// A coroutine, with the status the VM last reported for it.
#[derive(Debug)]
pub struct Thread {
    pub(crate) id: ObjectId,
    pub(crate) status: ThreadStatus,
}

/// The error of resetting a running or normal coroutine.
pub open spec fn spec_reset_error(e: Error, s: ThreadStatus) -> bool {
    e matches Error::RuntimeError(m) && (s == ThreadStatus::Running ==> m@ == "cannot reset a running thread"@)
        && (s == ThreadStatus::Normal ==> m@ == "cannot reset a normal thread"@)
}

impl Thread {
    /// A coroutine with identity `id` and status `status`.
    pub fn new(id: ObjectId, status: ThreadStatus) -> (r: Thread)
        ensures
            r.spec_id() == id,
            r.spec_status() == status,
    {
        Thread { id, status }
    }

    /// The identity of the coroutine.
    pub closed spec fn spec_id(&self) -> ObjectId {
        self.id
    }

    /// The status of the coroutine.
    pub closed spec fn spec_status(&self) -> ThreadStatus {
        self.status
    }

    /// The status of the coroutine.
    pub fn status(&self) -> (r: ThreadStatus)
        ensures
            r == self.spec_status(),
    {
        self.status
    }

    /// Records the status the VM reports now.
    pub fn observe(&mut self, status: ThreadStatus)
        ensures
            final(self).spec_status() == status,
            final(self).spec_id() == old(self).spec_id(),
    {
        self.status = status;
    }

    /// Whether the coroutine can be resumed.
    pub fn is_resumable(&self) -> (r: bool)
        ensures
            r == (self.spec_status() == ThreadStatus::Resumable),
    {
        self.status == ThreadStatus::Resumable
    }

    /// Whether the coroutine is running.
    pub fn is_running(&self) -> (r: bool)
        ensures
            r == (self.spec_status() == ThreadStatus::Running),
    {
        self.status == ThreadStatus::Running
    }

    /// Whether the coroutine is active but not running.
    pub fn is_normal(&self) -> (r: bool)
        ensures
            r == (self.spec_status() == ThreadStatus::Normal),
    {
        self.status == ThreadStatus::Normal
    }

    /// Whether the coroutine finished its body.
    pub fn is_finished(&self) -> (r: bool)
        ensures
            r == (self.spec_status() == ThreadStatus::Finished),
    {
        self.status == ThreadStatus::Finished
    }

    /// Whether the coroutine stopped on an error.
    pub fn is_error(&self) -> (r: bool)
        ensures
            r == (self.spec_status() == ThreadStatus::Error),
    {
        self.status == ThreadStatus::Error
    }

    /// The identity of the coroutine.
    pub fn to_pointer(&self) -> (r: ObjectId)
        ensures
            r == self.spec_id(),
    {
        self.id
    }

    /// Starts a resume with `args`: only a resumable coroutine resumes.
    pub fn resume(&self, args: MultiValue) -> (r: Result<ResumeRequest, Error>)
        ensures
            self.spec_status() == ThreadStatus::Resumable ==> (r matches Ok(ResumeRequest::Args(a)) && a@ == args@),
            self.spec_status() != ThreadStatus::Resumable ==> (r matches Err(e) && e is CoroutineUnresumable),
    {
        if self.status != ThreadStatus::Resumable {
            return Err(Error::CoroutineUnresumable);
        }
        Ok(ResumeRequest::Args(args))
    }

    /// Starts a resume that raises `error` inside the coroutine.
    pub fn resume_error(&self, error: Value) -> (r: Result<ResumeRequest, Error>)
        ensures
            self.spec_status() == ThreadStatus::Resumable ==> (r matches Ok(ResumeRequest::RaiseError(v)) && v == error),
            self.spec_status() != ThreadStatus::Resumable ==> (r matches Err(e) && e is CoroutineUnresumable),
    {
        if self.status != ThreadStatus::Resumable {
            return Err(Error::CoroutineUnresumable);
        }
        Ok(ResumeRequest::RaiseError(error))
    }

    /// Starts turning the coroutine into a future: only a resumable one.
    pub fn into_async(self, args: MultiValue) -> (r: Result<crate::async_thread::AsyncThread, Error>)
        ensures
            self.spec_status() == ThreadStatus::Resumable ==> (r matches Ok(t) && t.spec_thread() == self.spec_id()
                && t.spec_pending_args() == Some(args@) && !t.spec_done()),
            self.spec_status() != ThreadStatus::Resumable ==> (r matches Err(e) && e is CoroutineUnresumable),
    {
        if self.status != ThreadStatus::Resumable {
            return Err(Error::CoroutineUnresumable);
        }
        Ok(crate::async_thread::AsyncThread::new(self.id, args))
    }

    /// Resets the coroutine to run the function `func` afresh; a running or
    /// normal coroutine cannot be reset.
    pub fn reset(&mut self, func: ObjectId) -> (r: Result<(), Error>)
        ensures
            final(self).spec_id() == old(self).spec_id(),
            (old(self).spec_status() == ThreadStatus::Running || old(self).spec_status() == ThreadStatus::Normal) ==> (r matches Err(
                e,
            ) && spec_reset_error(e, old(self).spec_status()) && final(self).spec_status() == old(self).spec_status()),
            !(old(self).spec_status() == ThreadStatus::Running || old(self).spec_status() == ThreadStatus::Normal) ==> (r is Ok
                && final(self).spec_status() == ThreadStatus::Resumable),
    {
        match self.status {
            ThreadStatus::Running => Err(Error::runtime("cannot reset a running thread")),
            ThreadStatus::Normal => Err(Error::runtime("cannot reset a normal thread")),
            _ => {
                self.status = ThreadStatus::Resumable;
                Ok(())
            },
        }
    }
}

/// Exactly one status predicate holds of a coroutine.
pub proof fn law_one_status(s: ThreadStatus)
    ensures
        (s == ThreadStatus::Resumable) as int + (s == ThreadStatus::Running) as int + (s == ThreadStatus::Normal) as int
            + (s == ThreadStatus::Finished) as int + (s == ThreadStatus::Error) as int == 1,
{
}

} // verus!
