//! The scheduling core of a `RustFuture`: a future that the foreign code awaits.
//!
//! The foreign code starts the future with an executor and a callback.  Rust then asks the
//! executor to run `do_wake` whenever the future's waker is woken; `do_wake` polls the future
//! and, once it is ready, calls the callback.  The foreign code may cancel the future at any
//! time, which calls the callback at once with a "cancelled" status.
//!
//! What to do next is decided from a small bit field:
//! * `STATE_LOCKED`: someone owns the future and its context (`startup`, a scheduled or running
//!   `do_wake`, or a completion that keeps it forever);
//! * `STATE_WAKE_CALLED`: a wake came in, so `do_wake` must run (again);
//! * `STATE_CANCELLED`: stop driving the future and report cancellation;
//! * `STATE_INITIALIZED`: `startup` has stored the executor and the callback.
//!
//! `RustFuture` here holds that bit field and whether the context was stored.  Each method
//! takes one event and returns the action that the caller performs: schedule `do_wake` on the
//! executor, poll the future, call the callback, or log an unexpected state.

use vstd::prelude::*;
use crate::text::{binary, binary_string};

verus! {

/// Lock bit.  Set this in order to access the future and its context.
pub const STATE_LOCKED: u8 = 1;
/// Wake bit.  If set, then wake was called and so `do_wake` needs to run at some point.
pub const STATE_WAKE_CALLED: u8 = 2;
/// Cancelled bit.  If set, then stop driving the future and call the foreign callback with a
/// cancelled status.
pub const STATE_CANCELLED: u8 = 4;
/// Initialized bit.  Set by `startup` once the context is stored.
pub const STATE_INITIALIZED: u8 = 8;

/// An unexpected situation that the caller logs.
#[derive(Debug, Clone, Copy, PartialEq, Eq)]
pub enum FutureLog {
    /// "context already set in startup()"
    ContextAlreadySet,
    /// "Unexpected state in startup(): {state:b}"
    UnexpectedStartupState(u8),
    /// "context not set in complete_after_cancel()"
    ContextNotSetAfterCancel,
    /// "Uninitialized state in wake(): {state:b}"
    UninitializedWake(u8),
    /// "Context not set in wake()"
    ContextNotSetInWake,
    /// "Uninitialized state in start_do_wake(): {state:b}"
    UninitializedStartDoWake(u8),
    /// "Unexpected state in start_do_wake(): {state:b}"
    UnexpectedStartDoWake(u8),
    /// "Context not set in continue_after_do_wake()"
    ContextNotSetInContinue,
    /// "Unexpected state in continue_after_do_wake(): {state:b}"
    UnexpectedContinueState(u8),
    /// "context not set in complete_after_do_wake()"
    ContextNotSetAtCompletion,
}

/// What a log entry says.
pub open spec fn log_message(log: FutureLog) -> Seq<char> {
    match log {
        FutureLog::ContextAlreadySet => "context already set in startup()"@,
        FutureLog::UnexpectedStartupState(s) => "Unexpected state in startup(): "@ + binary(s as nat),
        FutureLog::ContextNotSetAfterCancel => "context not set in complete_after_cancel()"@,
        FutureLog::UninitializedWake(s) => "Uninitialized state in wake(): "@ + binary(s as nat),
        FutureLog::ContextNotSetInWake => "Context not set in wake()"@,
        FutureLog::UninitializedStartDoWake(s) => "Uninitialized state in start_do_wake(): "@ + binary(
            s as nat,
        ),
        FutureLog::UnexpectedStartDoWake(s) => "Unexpected state in start_do_wake(): "@ + binary(
            s as nat,
        ),
        FutureLog::ContextNotSetInContinue => "Context not set in continue_after_do_wake()"@,
        FutureLog::UnexpectedContinueState(s) => "Unexpected state in continue_after_do_wake(): "@
            + binary(s as nat),
        FutureLog::ContextNotSetAtCompletion => "context not set in complete_after_do_wake()"@,
    }
}

impl FutureLog {
    /// What the log entry says, with the state in binary.
    pub fn message(&self) -> (s: String)
        ensures
            s@ == log_message(*self),
    {
        let (text, state) = match self {
            FutureLog::ContextAlreadySet => ("context already set in startup()", None),
            FutureLog::UnexpectedStartupState(s) => ("Unexpected state in startup(): ", Some(*s)),
            FutureLog::ContextNotSetAfterCancel => ("context not set in complete_after_cancel()", None),
            FutureLog::UninitializedWake(s) => ("Uninitialized state in wake(): ", Some(*s)),
            FutureLog::ContextNotSetInWake => ("Context not set in wake()", None),
            FutureLog::UninitializedStartDoWake(s) => ("Uninitialized state in start_do_wake(): ", Some(*s)),
            FutureLog::UnexpectedStartDoWake(s) => ("Unexpected state in start_do_wake(): ", Some(*s)),
            FutureLog::ContextNotSetInContinue => ("Context not set in continue_after_do_wake()", None),
            FutureLog::UnexpectedContinueState(s) => ("Unexpected state in continue_after_do_wake(): ", Some(*s)),
            FutureLog::ContextNotSetAtCompletion => ("context not set in complete_after_do_wake()", None),
        };
        let mut m = String::from_str(text);
        if let Some(s) = state {
            let b = binary_string(s as u64);
            m.append(b.as_str());
        }
        m
    }
}

/// What the caller does after an event.
#[derive(Debug, Clone, Copy, PartialEq, Eq)]
pub enum FutureAction {
    /// Nothing.
    Nothing,
    /// Ask the executor to run `do_wake` soon.
    ScheduleDoWake,
    /// Poll the future (from `do_wake`).
    Poll,
    /// Call the foreign callback with the future's result and status.
    InvokeCallback,
    /// Call the foreign callback with a default value and the cancelled status.
    InvokeCallbackCancelled,
    /// Log an error.
    Log(FutureLog),
}

/// The bit field and whether the context (executor, callback, callback data) is stored.
pub struct FutureView {
    pub state: u8,
    pub has_context: bool,
}

/// `startup()`: take the lock from the initial state, store the context and schedule the
/// first `do_wake`; or report a cancellation that came before startup.
///
/// The cancellation test is `state | STATE_CANCELLED`, which is never 0: from any state but
/// the initial one, startup calls the callback with the cancelled status, and the log line of
/// an unexpected state is not reached.
pub open spec fn startup_step(v: FutureView) -> (FutureView, FutureAction) {
    if v.state == 0 {
        if !v.has_context {
            (
                FutureView {
                    state: STATE_LOCKED | STATE_INITIALIZED | STATE_WAKE_CALLED,
                    has_context: true,
                },
                FutureAction::ScheduleDoWake,
            )
        } else {
            (
                FutureView { state: STATE_LOCKED, has_context: true },
                FutureAction::Log(FutureLog::ContextAlreadySet),
            )
        }
    } else if (v.state | STATE_CANCELLED) != 0 {
        // task cancelled before it was started
        (v, FutureAction::InvokeCallbackCancelled)
    } else {
        (v, FutureAction::Log(FutureLog::UnexpectedStartupState(v.state)))
    }
}

/// What `complete_after_cancel()` does: call the callback with the cancelled status.
pub open spec fn cancel_completion(has_context: bool) -> FutureAction {
    if has_context {
        FutureAction::InvokeCallbackCancelled
    } else {
        FutureAction::Log(FutureLog::ContextNotSetAfterCancel)
    }
}

/// `cancel()`: set the cancelled bit; whoever gets the lock reports the cancellation.
pub open spec fn cancel_step(v: FutureView) -> (FutureView, FutureAction) {
    let prev = v.state;
    let s = prev | STATE_LOCKED | STATE_CANCELLED;
    if prev & STATE_INITIALIZED == 0 {
        // task hasn't started yet, release the lock and cancel once startup() is called
        (FutureView { state: s & !STATE_LOCKED, has_context: v.has_context }, FutureAction::Nothing)
    } else if prev & STATE_LOCKED == 0 {
        (FutureView { state: s, has_context: v.has_context }, cancel_completion(v.has_context))
    } else {
        (FutureView { state: s, has_context: v.has_context }, FutureAction::Nothing)
    }
}

/// `wake()`: set the wake bit; schedule `do_wake` if this call got the lock.
pub open spec fn wake_step(v: FutureView) -> (FutureView, FutureAction) {
    let prev = v.state;
    let w = FutureView {
        state: prev | STATE_LOCKED | STATE_WAKE_CALLED,
        has_context: v.has_context,
    };
    if prev & STATE_INITIALIZED == 0 {
        (w, FutureAction::Log(FutureLog::UninitializedWake(prev)))
    } else if prev & (STATE_LOCKED | STATE_CANCELLED) == STATE_CANCELLED {
        // got the lock, but the future was already cancelled
        (w, cancel_completion(v.has_context))
    } else if prev & STATE_LOCKED == 0 {
        if v.has_context {
            (w, FutureAction::ScheduleDoWake)
        } else {
            (w, FutureAction::Log(FutureLog::ContextNotSetInWake))
        }
    } else {
        (w, FutureAction::Nothing)
    }
}

/// `start_do_wake()`: clear the wake bit and poll if the lock is ours.  The first part of the
/// result is a log line that comes before the action, if any.
pub open spec fn start_do_wake_step(v: FutureView) -> (FutureView, Option<FutureLog>, FutureAction) {
    let prev = v.state;
    let w = FutureView { state: prev & !STATE_WAKE_CALLED, has_context: v.has_context };
    let first = if prev & STATE_INITIALIZED == 0 {
        Some(FutureLog::UninitializedStartDoWake(prev))
    } else {
        None
    };
    if prev & (STATE_INITIALIZED | STATE_LOCKED) == STATE_INITIALIZED | STATE_LOCKED {
        (w, first, FutureAction::Poll)
    } else {
        (w, first, FutureAction::Log(FutureLog::UnexpectedStartDoWake(prev)))
    }
}

/// `continue_after_do_wake()`, after a poll that was still pending: release the lock, unless
/// a wake came in meanwhile, in which case schedule `do_wake` again.
pub open spec fn continue_step(v: FutureView) -> (FutureView, FutureAction) {
    if v.state == STATE_INITIALIZED | STATE_LOCKED {
        (FutureView { state: STATE_INITIALIZED, has_context: v.has_context }, FutureAction::Nothing)
    } else if v.state == STATE_INITIALIZED | STATE_LOCKED | STATE_WAKE_CALLED {
        if v.has_context {
            (v, FutureAction::ScheduleDoWake)
        } else {
            (v, FutureAction::Log(FutureLog::ContextNotSetInContinue))
        }
    } else {
        (v, FutureAction::Log(FutureLog::UnexpectedContinueState(v.state)))
    }
}

/// `complete_after_do_wake()`, after a poll that was ready or failed: call the callback and
/// keep the lock, so that the future is never polled again.
pub open spec fn complete_step(v: FutureView) -> (FutureView, FutureAction) {
    if v.has_context {
        (v, FutureAction::InvokeCallback)
    } else {
        (v, FutureAction::Log(FutureLog::ContextNotSetAtCompletion))
    }
}

/// The scheduling state of a future that the foreign code awaits.
pub struct RustFuture {
    state: u8,
    has_context: bool,
}

impl View for RustFuture {
    type V = FutureView;

    closed spec fn view(&self) -> FutureView {
        FutureView { state: self.state, has_context: self.has_context }
    }
}

impl RustFuture {
    /// A future that has not been started: no bit set, no context.
    pub fn new() -> (f: RustFuture)
        ensures
            f@ == (FutureView { state: 0, has_context: false }),
    {
        RustFuture { state: 0, has_context: false }
    }

    /// Startup the future: the foreign code hands over the executor and the callback.
    ///
    /// This should only be called once.
    pub fn startup(&mut self) -> (a: FutureAction)
        ensures
            (final(self)@, a) == startup_step(old(self)@),
    {
        if self.state == 0 {
            // We hold the lock now
            self.state = STATE_LOCKED;
            if !self.has_context {
                self.has_context = true;
                self.state = STATE_LOCKED | STATE_INITIALIZED | STATE_WAKE_CALLED;
                FutureAction::ScheduleDoWake
            } else {
                FutureAction::Log(FutureLog::ContextAlreadySet)
            }
        } else if (self.state | STATE_CANCELLED) != 0 {
            // task cancelled before it was started
            FutureAction::InvokeCallbackCancelled
        } else {
            FutureAction::Log(FutureLog::UnexpectedStartupState(self.state))
        }
    }

    /// Report the cancellation.  The lock must be held; it is kept, so the future is not
    /// polled again.
    pub fn complete_after_cancel(&self) -> (a: FutureAction)
        ensures
            a == cancel_completion(self@.has_context),
    {
        if self.has_context {
            FutureAction::InvokeCallbackCancelled
        } else {
            FutureAction::Log(FutureLog::ContextNotSetAfterCancel)
        }
    }

    /// Cancel the future: the callback is called with the cancelled status, either now or
    /// by whoever holds the lock.
    pub fn cancel(&mut self) -> (a: FutureAction)
        ensures
            (final(self)@, a) == cancel_step(old(self)@),
    {
        // Try to take the lock.  Set the cancelled bit regardless.
        let prev_state = self.state;
        self.state = prev_state | STATE_LOCKED | STATE_CANCELLED;
        if prev_state & STATE_INITIALIZED == 0 {
            // task hasn't started yet, release the lock and cancel once startup() is called
            self.state = self.state & !STATE_LOCKED;
            FutureAction::Nothing
        } else if (prev_state & STATE_LOCKED) == 0 {
            self.complete_after_cancel()
        } else {
            FutureAction::Nothing
        }
    }

    /// Wake up soon and poll the future.
    pub fn wake(&mut self) -> (a: FutureAction)
        ensures
            (final(self)@, a) == wake_step(old(self)@),
    {
        // Try to take the lock.  Set the wake bit regardless.
        let prev_state = self.state;
        self.state = prev_state | STATE_LOCKED | STATE_WAKE_CALLED;
        if prev_state & STATE_INITIALIZED == 0 {
            FutureAction::Log(FutureLog::UninitializedWake(prev_state))
        } else if prev_state & (STATE_LOCKED | STATE_CANCELLED) == STATE_CANCELLED {
            // Got the lock, but the future was already cancelled
            self.complete_after_cancel()
        } else if (prev_state & STATE_LOCKED) == 0 {
            // Got the lock
            if self.has_context {
                FutureAction::ScheduleDoWake
            } else {
                FutureAction::Log(FutureLog::ContextNotSetInWake)
            }
        } else {
            FutureAction::Nothing
        }
    }

    /// Start a `do_wake()` call: clear the wake bit, then poll if the lock is held.
    pub fn start_do_wake(&mut self) -> (r: (Option<FutureLog>, FutureAction))
        ensures
            (final(self)@, r.0, r.1) == start_do_wake_step(old(self)@),
    {
        let prev_state = self.state;
        self.state = prev_state & !STATE_WAKE_CALLED;
        let first = if prev_state & STATE_INITIALIZED == 0 {
            Some(FutureLog::UninitializedStartDoWake(prev_state))
        } else {
            None
        };
        if prev_state & (STATE_INITIALIZED | STATE_LOCKED) == STATE_INITIALIZED | STATE_LOCKED {
            (first, FutureAction::Poll)
        } else {
            (first, FutureAction::Log(FutureLog::UnexpectedStartDoWake(prev_state)))
        }
    }

    /// Continue after a call to `do_wake()` where the future was still pending
    pub fn continue_after_do_wake(&mut self) -> (a: FutureAction)
        ensures
            (final(self)@, a) == continue_step(old(self)@),
    {
        // If the wake bit is still not set, then release the lock.
        if self.state == STATE_INITIALIZED | STATE_LOCKED {
            self.state = STATE_INITIALIZED;
            FutureAction::Nothing
        } else if self.state == STATE_INITIALIZED | STATE_LOCKED | STATE_WAKE_CALLED {
            // The lock is still ours: run do_wake again
            if self.has_context {
                FutureAction::ScheduleDoWake
            } else {
                FutureAction::Log(FutureLog::ContextNotSetInContinue)
            }
        } else {
            FutureAction::Log(FutureLog::UnexpectedContinueState(self.state))
        }
    }

    /// Complete the future after a call to `do_wake()` where the future was ready (or failed).
    ///
    /// The lock is kept, since the future must not be polled again.
    pub fn complete_after_do_wake(&self) -> (a: FutureAction)
        ensures
            (self@, a) == complete_step(self@),
    {
        if self.has_context {
            FutureAction::InvokeCallback
        } else {
            FutureAction::Log(FutureLog::ContextNotSetAtCompletion)
        }
    }
}

/// The state of a future that has not been started.
pub open spec fn unstarted() -> FutureView {
    FutureView { state: 0, has_context: false }
}

/// The state of a started future that nobody is driving: it waits for a wake.
pub open spec fn idle() -> FutureView {
    FutureView { state: STATE_INITIALIZED, has_context: true }
}

/// While the lock is held (by a scheduled or running `do_wake`, or forever after the callback
/// was called), wakes and cancels only leave their bit: they schedule nothing, poll nothing and
/// call no callback, and the lock stays held.
pub proof fn law_lock_holder_is_alone(v: FutureView)
    requires
        v.state & STATE_INITIALIZED != 0,
        v.state & STATE_LOCKED != 0,
    ensures
        wake_step(v).1 == FutureAction::Nothing,
        wake_step(v).0.state & STATE_LOCKED != 0,
        wake_step(v).0.state & STATE_INITIALIZED != 0,
        cancel_step(v).1 == FutureAction::Nothing,
        cancel_step(v).0.state & STATE_LOCKED != 0,
        cancel_step(v).0.state & STATE_INITIALIZED != 0,
{
    let s = v.state;
    assert(s & 8u8 != 0 && s & 1u8 != 0 ==> (s & (1u8 | 4u8) != 4u8) && ((s | 1u8 | 2u8) & 1u8
        != 0) && ((s | 1u8 | 2u8) & 8u8 != 0) && ((s | 1u8 | 4u8) & 1u8 != 0) && ((s | 1u8
        | 4u8) & 8u8 != 0)) by (bit_vector);
}

/// Many wakes make one `do_wake`: a wake that comes after another finds the lock taken and
/// does nothing.
pub proof fn law_wakes_coalesce(v: FutureView)
    requires
        v.state & STATE_INITIALIZED != 0,
    ensures
        wake_step(wake_step(v).0).1 == FutureAction::Nothing,
{
    let s = v.state;
    assert(s & 8u8 != 0 ==> (s | 1u8 | 2u8) & 8u8 != 0 && (s | 1u8 | 2u8) & 1u8 != 0) by (bit_vector);
    law_lock_holder_is_alone(wake_step(v).0);
}

/// A cancellation before startup is remembered: startup then calls the callback with the
/// cancelled status instead of driving the future.
pub proof fn law_cancel_before_startup()
    ensures
        cancel_step(unstarted()).1 == FutureAction::Nothing,
        startup_step(cancel_step(unstarted()).0).1 == FutureAction::InvokeCallbackCancelled,
{
    assert((0u8 | 1u8 | 4u8) & !1u8 == 4u8) by (bit_vector);
    assert(4u8 | 4u8 != 0) by (bit_vector);
    assert(0u8 & 8u8 == 0) by (bit_vector);
}

/// Startup stores the context and schedules the first `do_wake`; a second startup of a started
/// future never drives it again.
pub proof fn law_startup_once(v: FutureView)
    requires
        v.state & STATE_INITIALIZED != 0,
    ensures
        startup_step(unstarted()) == (
        FutureView { state: STATE_LOCKED | STATE_INITIALIZED | STATE_WAKE_CALLED, has_context: true },
        FutureAction::ScheduleDoWake),
        startup_step(unstarted()).0.state & STATE_INITIALIZED != 0,
        startup_step(v).1 != FutureAction::ScheduleDoWake,
        startup_step(v).0 == v,
{
    assert((1u8 | 8u8 | 2u8) & 8u8 != 0) by (bit_vector);
    let s = v.state;
    assert(s & 8u8 != 0 ==> s != 0) by (bit_vector);
}

/// The poll cycle: a wake on an idle future schedules `do_wake`, which polls under the lock;
/// a pending poll with no wake meanwhile releases the lock and the future is idle again.
pub proof fn law_poll_cycle()
    ensures
        wake_step(idle()) == (
        FutureView { state: STATE_INITIALIZED | STATE_LOCKED | STATE_WAKE_CALLED, has_context: true },
        FutureAction::ScheduleDoWake),
        start_do_wake_step(wake_step(idle()).0) == (
        FutureView { state: STATE_INITIALIZED | STATE_LOCKED, has_context: true },
        None::<FutureLog>,
        FutureAction::Poll),
        continue_step(start_do_wake_step(wake_step(idle()).0).0) == (idle(), FutureAction::Nothing),
{
    assert(8u8 & 8u8 != 0 && 8u8 & (1u8 | 4u8) == 0 && 8u8 & 1u8 == 0) by (bit_vector);
    assert((8u8 | 1u8 | 2u8) == (8u8 | 1u8 | 2u8)) by (bit_vector);
    assert(((8u8 | 1u8 | 2u8) & !2u8) == (8u8 | 1u8) && (8u8 | 1u8 | 2u8) & 8u8 != 0 && (8u8 | 1u8
        | 2u8) & (8u8 | 1u8) == (8u8 | 1u8)) by (bit_vector);
}

/// A wake that comes while the future is being polled is not lost: it leaves the lock with
/// the poller, and the poller schedules `do_wake` again when the poll was pending.
pub proof fn law_wake_during_poll_not_lost()
    ensures
        wake_step(FutureView { state: STATE_INITIALIZED | STATE_LOCKED, has_context: true }).1
            == FutureAction::Nothing,
        continue_step(
            wake_step(FutureView { state: STATE_INITIALIZED | STATE_LOCKED, has_context: true }).0,
        ).1 == FutureAction::ScheduleDoWake,
{
    assert((8u8 | 1u8) & 8u8 != 0 && (8u8 | 1u8) & 1u8 != 0 && (8u8 | 1u8) & (1u8 | 4u8) != 4u8
        && ((8u8 | 1u8) | 1u8 | 2u8) == 11u8 && (8u8 | 1u8 | 2u8) == 11u8 && (8u8 | 1u8) == 9u8)
        by (bit_vector);
}

/// Cancelling an idle future calls the callback with the cancelled status once, and keeps
/// the lock, so that nothing drives the future afterwards.
pub proof fn law_cancel_idle()
    ensures
        cancel_step(idle()).1 == FutureAction::InvokeCallbackCancelled,
        cancel_step(idle()).0.state & STATE_LOCKED != 0,
        cancel_step(idle()).0.state & STATE_INITIALIZED != 0,
{
    assert(8u8 & 8u8 != 0 && 8u8 & 1u8 == 0 && (8u8 | 1u8 | 4u8) & 1u8 != 0 && (8u8 | 1u8 | 4u8)
        & 8u8 != 0) by (bit_vector);
}

/// `do_wake` polls only a started future whose lock is held.
pub proof fn law_poll_needs_lock(v: FutureView)
    requires
        start_do_wake_step(v).2 == FutureAction::Poll,
    ensures
        v.state & STATE_LOCKED != 0,
        v.state & STATE_INITIALIZED != 0,
        start_do_wake_step(v).0.state & STATE_LOCKED != 0,
        start_do_wake_step(v).0.state & STATE_WAKE_CALLED == 0,
{
    let s = v.state;
    assert(s & (8u8 | 1u8) == (8u8 | 1u8) ==> s & 1u8 != 0 && s & 8u8 != 0 && (s & !2u8) & 1u8 != 0
        && (s & !2u8) & 2u8 == 0) by (bit_vector);
}

} // verus!
