use uniffi_jni_core::rustfuture::{
    FutureAction, FutureLog, RustFuture, STATE_CANCELLED, STATE_INITIALIZED, STATE_LOCKED,
};

/// Runs one scheduled `do_wake` call whose poll gives `ready`, and returns what followed it.
fn run_do_wake(f: &mut RustFuture, ready: bool) -> FutureAction {
    let (log, action) = f.start_do_wake();
    assert_eq!(log, None);
    assert_eq!(action, FutureAction::Poll);
    if ready {
        f.complete_after_do_wake()
    } else {
        f.continue_after_do_wake()
    }
}

#[test]
fn test_wake() {
    let mut f = RustFuture::new();
    // startup() should schedule a wakeup call
    assert_eq!(f.startup(), FutureAction::ScheduleDoWake);
    // When that call runs, the future is still pending and nothing more is scheduled
    assert_eq!(run_do_wake(&mut f, false), FutureAction::Nothing);
    // Multiple wakes should only result in 1 scheduled call
    assert_eq!(f.wake(), FutureAction::ScheduleDoWake);
    assert_eq!(f.wake(), FutureAction::Nothing);
    // The future is ready now, so the callback is called
    assert_eq!(run_do_wake(&mut f, true), FutureAction::InvokeCallback);
    // Future wakes shouldn't schedule any calls
    assert_eq!(f.wake(), FutureAction::Nothing);
}

#[test]
fn test_error() {
    // A future that fails on its first poll calls the callback once, and nothing follows.
    let mut f = RustFuture::new();
    assert_eq!(f.startup(), FutureAction::ScheduleDoWake);
    assert_eq!(run_do_wake(&mut f, true), FutureAction::InvokeCallback);
    assert_eq!(f.wake(), FutureAction::Nothing);
    assert_eq!(f.cancel(), FutureAction::Nothing);
}

#[test]
fn cancel_before_startup_reports_cancellation_at_startup() {
    let mut f = RustFuture::new();
    assert_eq!(f.cancel(), FutureAction::Nothing);
    assert_eq!(f.startup(), FutureAction::InvokeCallbackCancelled);
}

#[test]
fn cancel_while_idle_reports_at_once() {
    let mut f = RustFuture::new();
    assert_eq!(f.startup(), FutureAction::ScheduleDoWake);
    assert_eq!(run_do_wake(&mut f, false), FutureAction::Nothing);
    assert_eq!(f.cancel(), FutureAction::InvokeCallbackCancelled);
    // The lock is kept: nothing is driven again.
    assert_eq!(f.wake(), FutureAction::Nothing);
    assert_eq!(f.cancel(), FutureAction::Nothing);
}

#[test]
fn cancel_during_poll_leaves_it_to_the_lock_holder() {
    let mut f = RustFuture::new();
    assert_eq!(f.startup(), FutureAction::ScheduleDoWake);
    let (_, action) = f.start_do_wake();
    assert_eq!(action, FutureAction::Poll);
    assert_eq!(f.cancel(), FutureAction::Nothing);
    // The state after the poll is not the plain locked one, so the holder logs it.
    assert_eq!(
        f.continue_after_do_wake(),
        FutureAction::Log(FutureLog::UnexpectedContinueState(
            STATE_INITIALIZED | STATE_LOCKED | STATE_CANCELLED
        ))
    );
    assert_eq!(f.complete_after_cancel(), FutureAction::InvokeCallbackCancelled);
}

#[test]
fn wake_during_poll_schedules_again() {
    let mut f = RustFuture::new();
    assert_eq!(f.startup(), FutureAction::ScheduleDoWake);
    let (_, action) = f.start_do_wake();
    assert_eq!(action, FutureAction::Poll);
    assert_eq!(f.wake(), FutureAction::Nothing);
    assert_eq!(f.continue_after_do_wake(), FutureAction::ScheduleDoWake);
    assert_eq!(run_do_wake(&mut f, false), FutureAction::Nothing);
}

#[test]
fn startup_of_a_started_future_reports_cancellation() {
    let mut f = RustFuture::new();
    assert_eq!(f.startup(), FutureAction::ScheduleDoWake);
    assert_eq!(f.startup(), FutureAction::InvokeCallbackCancelled);
    // The state is left as it was: the scheduled do_wake still polls
    let (_, action) = f.start_do_wake();
    assert_eq!(action, FutureAction::Poll);
}

#[test]
fn wake_before_startup_is_logged() {
    let mut f = RustFuture::new();
    assert_eq!(
        f.wake(),
        FutureAction::Log(FutureLog::UninitializedWake(0))
    );
}

#[test]
fn do_wake_without_lock_is_logged() {
    let mut f = RustFuture::new();
    let (log, action) = f.start_do_wake();
    assert_eq!(log, Some(FutureLog::UninitializedStartDoWake(0)));
    assert_eq!(action, FutureAction::Log(FutureLog::UnexpectedStartDoWake(0)));
}

#[test]
fn completion_without_context_is_logged() {
    let f = RustFuture::new();
    assert_eq!(
        f.complete_after_do_wake(),
        FutureAction::Log(FutureLog::ContextNotSetAtCompletion)
    );
    assert_eq!(
        f.complete_after_cancel(),
        FutureAction::Log(FutureLog::ContextNotSetAfterCancel)
    );
}

#[test]
fn log_messages_write_the_state_in_binary() {
    assert_eq!(
        FutureLog::UnexpectedStartupState(STATE_LOCKED | STATE_INITIALIZED).message(),
        format!("Unexpected state in startup(): {:b}", STATE_LOCKED | STATE_INITIALIZED)
    );
    assert_eq!(FutureLog::UninitializedWake(0).message(), "Uninitialized state in wake(): 0");
    assert_eq!(
        FutureLog::UnexpectedContinueState(13).message(),
        "Unexpected state in continue_after_do_wake(): 1101"
    );
    assert_eq!(FutureLog::ContextNotSetInWake.message(), "Context not set in wake()");
}
