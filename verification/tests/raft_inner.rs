//! How a call into the core ends.

use raft_engine::raft_inner::{call_result, shows_failure, CallEvent, CallState, CoreExit, CoreState, Fatal, RaftError};

type Call = CallState<u32, &'static str>;
type Event = CallEvent<u32, &'static str>;

fn run(events: Vec<Event>) -> Call {
    events.into_iter().fold(CallState::Starting, |state, event| state.on(event))
}

#[test]
fn reply_is_returned_and_final() {
    assert_eq!(
        CallState::Finished(Ok(7)),
        run(vec![
            CallEvent::Read(Ok(())),
            CallEvent::Sent,
            CallEvent::Response(7),
            CallEvent::CoreFailed,
            CallEvent::Response(8),
        ])
    );
}

#[test]
fn published_cause_is_returned_before_anything_is_sent() {
    assert_eq!(
        CallState::Finished(Err(Fatal::StorageError("disk"))),
        run(vec![CallEvent::Read(Err(Fatal::StorageError("disk"))), CallEvent::Sent])
    );
}

#[test]
fn failed_send_reports_the_published_cause_or_the_exit() {
    assert_eq!(
        CallState::Finished(Err(Fatal::Panicked)),
        run(vec![
            CallEvent::Read(Ok(())),
            CallEvent::NotSent,
            CallEvent::Read(Err(Fatal::Panicked)),
        ])
    );
    assert_eq!(
        CallState::Finished(Err(Fatal::Stopped)),
        run(vec![
            CallEvent::Read(Ok(())),
            CallEvent::NotSent,
            CallEvent::Read(Ok(())),
            CallEvent::Exited(Fatal::Stopped),
        ])
    );
}

#[test]
fn waiting_caller_gets_the_cause_without_joining() {
    for dropped in [false, true] {
        let mut events = vec![CallEvent::Read(Ok(())), CallEvent::Sent];
        if dropped {
            events.push(CallEvent::ResponseDropped);
        }
        events.push(CallEvent::CoreFailed);
        events.push(CallEvent::Read(Err(Fatal::StorageError("disk"))));
        assert_eq!(CallState::Finished(Err(Fatal::StorageError("disk"))), run(events));
    }
}

#[test]
fn dropped_responder_of_a_running_core_is_stopped_after_the_wait() {
    assert_eq!(
        CallState::Finished(Err(Fatal::Stopped)),
        run(vec![
            CallEvent::Read(Ok(())),
            CallEvent::Sent,
            CallEvent::ResponseDropped,
            CallEvent::TimedOut,
        ])
    );
}

#[test]
fn unexpected_events_are_ignored() {
    assert_eq!(CallState::Starting, run(vec![CallEvent::Sent, CallEvent::TimedOut]));
    assert_eq!(
        CallState::AwaitingResponse,
        run(vec![CallEvent::Read(Ok(())), CallEvent::Sent, CallEvent::TimedOut, CallEvent::Sent])
    );
}

#[test]
fn first_exit_is_recorded() {
    for (exit, error) in [
        (CoreExit::Returned(Fatal::StorageError("disk")), Fatal::StorageError("disk")),
        (CoreExit::Panicked, Fatal::Panicked),
        (CoreExit::Cancelled, Fatal::Stopped),
    ] {
        let mut state = CoreState::<u8, &'static str>::Running(1);
        state.record_exit(exit);
        state.record_exit(CoreExit::Panicked);
        assert!(matches!(state, CoreState::Done(recorded) if recorded == error));
    }
}

#[test]
fn failure_shows_in_the_reading_or_its_absence() {
    assert!(!shows_failure::<u8>(Some(&Ok(()))));
    assert!(shows_failure::<u8>(Some(&Err(Fatal::Stopped))));
    assert!(shows_failure::<u8>(None));
}

#[test]
fn refusals_and_failures_are_told_apart() {
    assert_eq!(Ok(1), call_result::<u8, u8, u8>(Ok(Ok(1))));
    assert_eq!(Err(RaftError::APIError(2)), call_result::<u8, u8, u8>(Ok(Err(2))));
    assert_eq!(
        Err(RaftError::Fatal(Fatal::Panicked)),
        call_result::<u8, u8, u8>(Err(Fatal::Panicked))
    );
}

#[test]
fn sender_waits_for_no_response() {
    let sent = run(vec![CallEvent::Read(Ok(())), CallEvent::Sent]);
    assert_eq!(Ok(Ok(())), sent.into_send_result());
    let finished: Call = CallState::Finished(Err(Fatal::Panicked));
    assert_eq!(Ok(Err(Fatal::Panicked)), finished.into_send_result());
    let starting: Call = CallState::Starting;
    assert_eq!(Err(CallState::Starting), starting.into_send_result());
    let answered: Call = CallState::Finished(Ok(4));
    assert_eq!(Ok(Ok(4)), answered.into_result());
    let waiting: Call = CallState::AwaitingResponse;
    assert_eq!(Err(CallState::AwaitingResponse), waiting.into_result());
}

#[test]
fn delivered_reply_comes_before_a_failure() {
    for core_failed in [false, true] {
        assert_eq!(Some(CallEvent::Response(7)), Call::ready(Some(Some(7)), core_failed));
        assert_eq!(Some(CallEvent::ResponseDropped), Call::ready(Some(None), core_failed));
    }
    assert_eq!(Some(CallEvent::CoreFailed), Call::ready(None, true));
    assert_eq!(None, Call::ready(None, false));
}
