//! Driving a coroutine as a future or as a stream: what each poll hands to
//! the VM and what it answers for each outcome of the resume.

use vstd::prelude::*;
use crate::error::{Error, spec_error_text};
use crate::multi::MultiValue;
use crate::value::ObjectId;

verus! {

/// A coroutine being driven by polls.
#[derive(Debug)]
pub struct AsyncThread {
    pub(crate) thread: ObjectId,
    pub(crate) args: Option<MultiValue>,
    pub(crate) done: bool,
    pub(crate) implicit: bool,
}

/// What a resume for a poll came back with.
#[derive(Debug)]
pub enum AsyncResume {
    /// A future inside the coroutine is not ready.
    Pending,
    /// The coroutine yielded values.
    Yielded(MultiValue),
    /// The coroutine returned values.
    Returned(MultiValue),
    /// The resume failed.
    Failed(Error),
}

/// What a poll answers.
#[derive(Debug)]
pub enum PollAnswer {
    /// Not ready; the executor polls again when woken.
    Pending,
    /// Not ready, but wake at once so that the coroutine keeps running.
    WakeAndPending,
    /// Ready with this result (a future's output, or a stream's item).
    Ready(Result<MultiValue, Error>),
    /// The stream has ended.
    End,
}

/// What a poll does first.
#[derive(Debug)]
pub enum PollStart {
    /// The coroutine already finished: answer without resuming.
    AlreadyDone,
    /// Resume with these arguments.
    Resume(MultiValue),
}

impl AsyncThread {
    /// A driver for the coroutine `thread`, resumed first with `args`.
    pub fn new(thread: ObjectId, args: MultiValue) -> (r: AsyncThread)
        ensures
            r.spec_thread() == thread,
            r.spec_pending_args() == Some(args@),
            !r.spec_done(),
            !r.spec_implicit(),
    {
        AsyncThread { thread, args: Some(args), done: false, implicit: false }
    }

    /// A driver for a coroutine created for one call (it is released with
    /// the driver).
    pub fn new_implicit(thread: ObjectId, args: MultiValue) -> (r: AsyncThread)
        ensures
            r.spec_thread() == thread,
            r.spec_pending_args() == Some(args@),
            !r.spec_done(),
            r.spec_implicit(),
    {
        AsyncThread { thread, args: Some(args), done: false, implicit: true }
    }

    /// The coroutine driven.
    pub closed spec fn spec_thread(&self) -> ObjectId {
        self.thread
    }

    /// The arguments of the first resume, until it happens.
    pub closed spec fn spec_pending_args(&self) -> Option<Seq<crate::value::Value>> {
        match self.args {
            Some(a) => Some(a@),
            None => None,
        }
    }

    /// Whether the coroutine finished or failed.
    pub closed spec fn spec_done(&self) -> bool {
        self.done
    }

    /// Whether the coroutine was created for one call.
    pub closed spec fn spec_implicit(&self) -> bool {
        self.implicit
    }

    /// The coroutine driven.
    pub fn thread(&self) -> (r: ObjectId)
        ensures
            r == self.spec_thread(),
    {
        self.thread
    }

    /// Whether the coroutine was created for one call.
    pub fn is_implicit(&self) -> (r: bool)
        ensures
            r == self.spec_implicit(),
    {
        self.implicit
    }

    /// The arguments of the next resume: the first resume takes the pending
    /// arguments, every later one none.
    pub fn take_args(&mut self) -> (r: MultiValue)
        ensures
            old(self).spec_pending_args() matches Some(a) ==> r@ == a,
            old(self).spec_pending_args() is None ==> r@ == Seq::<crate::value::Value>::empty(),
            final(self).spec_pending_args() is None,
            final(self).spec_done() == old(self).spec_done(),
            final(self).spec_thread() == old(self).spec_thread(),
            final(self).spec_implicit() == old(self).spec_implicit(),
    {
        let mut args: Option<MultiValue> = None;
        core::mem::swap(&mut args, &mut self.args);
        match args {
            Some(a) => a,
            None => MultiValue::new(),
        }
    }

    /// The first step of a poll: a finished driver answers at once;
    /// otherwise the coroutine is resumed with the next arguments.
    pub fn poll_start(&mut self) -> (r: PollStart)
        ensures
            old(self).spec_done() ==> r is AlreadyDone && *final(self) == *old(self),
            !old(self).spec_done() ==> (r matches PollStart::Resume(a) && (old(self).spec_pending_args() matches Some(
                p,
            ) ==> a@ == p) && (old(self).spec_pending_args() is None ==> a@ == Seq::<crate::value::Value>::empty())
                && final(self).spec_pending_args() is None && !final(self).spec_done()),
            final(self).spec_thread() == old(self).spec_thread(),
    {
        if self.done {
            return PollStart::AlreadyDone;
        }
        PollStart::Resume(self.take_args())
    }

    /// The answer of a future's poll: a failure or a return ends the
    /// coroutine; a yield keeps it running (its values are dropped).
    pub fn future_answer(&mut self, outcome: AsyncResume) -> (r: PollAnswer)
        ensures
            final(self).spec_thread() == old(self).spec_thread(),
            final(self).spec_pending_args() == old(self).spec_pending_args(),
            match outcome {
                AsyncResume::Failed(e) => r matches PollAnswer::Ready(Err(x)) && x == e && final(self).spec_done(),
                AsyncResume::Pending => r is Pending && final(self).spec_done() == old(self).spec_done(),
                AsyncResume::Yielded(_) => r is WakeAndPending && final(self).spec_done() == old(self).spec_done(),
                AsyncResume::Returned(v) => r matches PollAnswer::Ready(Ok(x)) && x@ == v@ && final(self).spec_done(),
            },
    {
        match outcome {
            AsyncResume::Failed(e) => {
                self.done = true;
                PollAnswer::Ready(Err(e))
            },
            AsyncResume::Pending => PollAnswer::Pending,
            AsyncResume::Yielded(_) => PollAnswer::WakeAndPending,
            AsyncResume::Returned(v) => {
                self.done = true;
                PollAnswer::Ready(Ok(v))
            },
        }
    }

    /// The answer of a future polled after it finished.
    pub fn future_done_answer() -> (r: PollAnswer)
        ensures
            r matches PollAnswer::Ready(Err(e)) && e is CoroutineUnresumable,
    {
        PollAnswer::Ready(Err(Error::CoroutineUnresumable))
    }

    /// The answer of a stream's poll: each yield is an item; the return is
    /// the last item; a failure is an item that ends the stream.
    pub fn stream_answer(&mut self, outcome: AsyncResume) -> (r: PollAnswer)
        ensures
            final(self).spec_thread() == old(self).spec_thread(),
            final(self).spec_pending_args() == old(self).spec_pending_args(),
            match outcome {
                AsyncResume::Failed(e) => r matches PollAnswer::Ready(Err(x)) && x == e && final(self).spec_done(),
                AsyncResume::Pending => r is Pending && final(self).spec_done() == old(self).spec_done(),
                AsyncResume::Yielded(v) => r matches PollAnswer::Ready(Ok(x)) && x@ == v@ && final(self).spec_done()
                    == old(self).spec_done(),
                AsyncResume::Returned(v) => r matches PollAnswer::Ready(Ok(x)) && x@ == v@ && final(self).spec_done(),
            },
    {
        match outcome {
            AsyncResume::Failed(e) => {
                self.done = true;
                PollAnswer::Ready(Err(e))
            },
            AsyncResume::Pending => PollAnswer::Pending,
            AsyncResume::Yielded(v) => PollAnswer::Ready(Ok(v)),
            AsyncResume::Returned(v) => {
                self.done = true;
                PollAnswer::Ready(Ok(v))
            },
        }
    }

    /// The answer of a stream polled after it ended.
    pub fn stream_done_answer() -> (r: PollAnswer)
        ensures
            r is End,
    {
        PollAnswer::End
    }
}

/// What the VM keeps for the future of an async function call.
#[derive(Debug)]
pub enum FutureSlot {
    /// The future, not taken yet.
    Future,
    /// The call's arguments could not be converted: this error is raised by
    /// the first poll.
    Failed(Error),
    /// The future was taken (terminated or panicked).
    Taken,
}

/// What a poll from the VM's poller does first.
#[derive(Debug)]
pub enum PollStep {
    /// The poller asked to terminate: park with `-1`.
    Park,
    /// Raise a Lua error with this message.
    Raise(String),
    /// The future was taken: raise the destructed-callback error.
    RaiseDestructed,
    /// Poll the future.
    PollFuture,
}

/// What polling the future gave.
#[derive(Debug)]
pub enum FuturePoll {
    /// Not ready; `with_values` when a yield left values to hand on.
    Pending { with_values: bool },
    /// Ready with this result, its values converted.
    Ready(Result<MultiValue, Error>),
    /// Polling panicked with this message.
    Panicked(String),
}

/// What a poll reports to the poller loop.
#[derive(Debug)]
pub enum PollReport {
    /// Still pending: `nil` and the pending marker.
    Pending,
    /// Pending with yielded values: `nil`, the values and their count.
    PendingWithValues,
    /// Ready with at most two values, given after their count.
    Values(MultiValue),
    /// Ready with three values or more, packed in a sequence after their count.
    Packed(MultiValue),
    /// Raise a Lua error with this message.
    Raise(String),
}

/// The first decision of a poll: a terminate request drops the future and
/// parks; otherwise a deferred conversion error is raised by its text, a
/// taken future is refused as destructed, and a future is polled.
pub fn poll_step(slot: &mut FutureSlot, terminate: bool) -> (r: PollStep)
    ensures
        terminate ==> (r is Park && *final(slot) is Taken),
        !terminate ==> *final(slot) == *old(slot),
        !terminate ==> match *old(slot) {
            FutureSlot::Failed(e) => r matches PollStep::Raise(m) && m@ == spec_error_text(e),
            FutureSlot::Taken => r is RaiseDestructed,
            FutureSlot::Future => r is PollFuture,
        },
{
    if terminate {
        *slot = FutureSlot::Taken;
        return PollStep::Park;
    }
    match slot {
        FutureSlot::Failed(e) => PollStep::Raise(e.text()),
        FutureSlot::Taken => PollStep::RaiseDestructed,
        FutureSlot::Future => PollStep::PollFuture,
    }
}

/// What a poll reports once the future was polled: a panic drops the future
/// and is raised; pending is reported with or without yielded values; an
/// error is raised by its text; up to two values are given directly, more
/// are packed in a sequence.
pub fn poll_report(slot: &mut FutureSlot, polled: FuturePoll) -> (r: PollReport)
    ensures
        polled matches FuturePoll::Panicked(msg) ==> *final(slot) is Taken,
        polled matches FuturePoll::Panicked(msg) ==> (r matches PollReport::Raise(m) && m@ == "rust panic: "@ + msg@),
        !(polled is Panicked) ==> *final(slot) == *old(slot),
        polled matches FuturePoll::Pending { with_values } ==> (if with_values {
            r is PendingWithValues
        } else {
            r is Pending
        }),
        polled matches FuturePoll::Ready(Err(e)) ==> (r matches PollReport::Raise(m) && m@ == spec_error_text(e)),
        polled matches FuturePoll::Ready(Ok(v)) ==> (if v@.len() < 3 {
            r matches PollReport::Values(x) && x@ == v@
        } else {
            r matches PollReport::Packed(x) && x@ == v@
        }),
{
    match polled {
        FuturePoll::Panicked(msg) => {
            *slot = FutureSlot::Taken;
            PollReport::Raise(crate::callback::panic_error_message(msg.as_str()))
        },
        FuturePoll::Pending { with_values } => if with_values {
            PollReport::PendingWithValues
        } else {
            PollReport::Pending
        },
        FuturePoll::Ready(Err(e)) => PollReport::Raise(e.text()),
        FuturePoll::Ready(Ok(v)) => if v.len() < 3 {
            PollReport::Values(v)
        } else {
            PollReport::Packed(v)
        },
    }
}

} // verus!
