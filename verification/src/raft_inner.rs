//! How a call into the core task ends: with the core's reply, or with the error
//! that stopped the core.
//!
//! The runtime performs what a call waits for and reports what happened; the
//! steps between are decided here.

use vstd::prelude::*;

verus! {

/// How long, in milliseconds, a caller waits for the core to report a failure
/// after a response channel closed, before concluding that the channel was
/// closed by a dropped responder instead.
///
/// A real failure is observable before cleanup: the core publishes its cause
/// before joining replication tasks. This only needs to tolerate scheduling
/// latency, not an actual shutdown, and solely bounds how long a caller waits
/// on the dropped-responder path.
pub const RECV_CORE_STOP_TIMEOUT_MS: u64 = 1000;

/// Why the core stopped; `S` is what a storage error carries.
#[derive(Clone, Debug, PartialEq, Eq)]
pub enum Fatal<S> {
    StorageError(S),
    Panicked,
    Stopped,
}

/// What the core publishes of itself: that it runs, or why it does not.
pub type RunningState<S> = Result<(), Fatal<S>>;

/// How the core task ended.
#[derive(Clone, Debug, PartialEq, Eq)]
pub enum CoreExit<S> {
    /// It returned its error; it never returns anything else.
    Returned(Fatal<S>),
    /// It panicked.
    Panicked,
    /// It was cancelled.
    Cancelled,
}

impl<S> CoreExit<S> {
    /// The error that stopped the core.
    pub open spec fn error(self) -> Fatal<S> {
        match self {
            CoreExit::Returned(error) => error,
            CoreExit::Panicked => Fatal::Panicked,
            CoreExit::Cancelled => Fatal::Stopped,
        }
    }

    /// The error that stopped the core.
    pub fn into_error(self) -> (r: Fatal<S>)
        ensures
            r == self.error(),
    {
        match self {
            CoreExit::Returned(error) => error,
            CoreExit::Panicked => Fatal::Panicked,
            CoreExit::Cancelled => Fatal::Stopped,
        }
    }
}

/// The core task: running, with the handle by which it is joined, or done,
/// with the error that stopped it.
#[derive(Debug)]
pub enum CoreState<H, S> {
    Running(H),
    Done(Fatal<S>),
}

impl<H, S> CoreState<H, S> {
    /// Record how the core task ended. Only the first record counts.
    pub fn record_exit(&mut self, exit: CoreExit<S>)
        ensures
            *final(self) == match *old(self) {
                CoreState::Running(_) => CoreState::<H, S>::Done(exit.error()),
                CoreState::Done(error) => CoreState::Done(error),
            },
    {
        let running = match &*self {
            CoreState::Running(_) => true,
            CoreState::Done(_) => false,
        };
        if running {
            *self = CoreState::Done(exit.into_error());
        }
    }
}

/// Whether a reading of what the core publishes shows that it failed. There is
/// no reading once the publisher is gone, which happens only when the core
/// task has ended.
pub fn shows_failure<S>(reading: Option<&RunningState<S>>) -> (r: bool)
    ensures
        r == (reading is None || *reading->0 is Err),
{
    match reading {
        None => true,
        Some(Ok(())) => false,
        Some(Err(_)) => true,
    }
}

/// Where a call into the core stands, that is, what it waits for.
#[derive(Debug, PartialEq, Eq)]
pub enum CallState<T, S> {
    /// Reading what the core publishes, before anything is sent.
    Starting,
    /// Sending the message.
    Sending,
    /// The message is sent. Waiting for the response, or else for the failure
    /// of the core; a response that is there already comes first.
    AwaitingResponse,
    /// The response channel closed without a reply. Waiting for the failure of
    /// the core, for a bounded time.
    AwaitingFailure,
    /// The core has stopped, or takes no messages. Reading what it publishes,
    /// to learn the cause.
    ReadingCause,
    /// No cause is published. Waiting for the core task to end.
    Joining,
    /// The call is over.
    Finished(Result<T, Fatal<S>>),
}

/// What happened to a call into the core.
#[derive(Debug, PartialEq, Eq)]
pub enum CallEvent<T, S> {
    /// What the core publishes was read.
    Read(RunningState<S>),
    /// The core took the message.
    Sent,
    /// The core takes no messages any more.
    NotSent,
    /// The response came.
    Response(T),
    /// The response channel closed without a reply.
    ResponseDropped,
    /// The core was seen to have failed.
    CoreFailed,
    /// The bounded wait is over.
    TimedOut,
    /// The core task has ended, with the recorded error.
    Exited(Fatal<S>),
}

impl<T, S> CallState<T, S> {
    /// The next state. An event that a state does not wait for is ignored.
    pub open spec fn after(self, event: CallEvent<T, S>) -> Self {
        match (self, event) {
            (CallState::Starting, CallEvent::Read(Ok(()))) => CallState::Sending,
            (CallState::Starting, CallEvent::Read(Err(error))) => CallState::Finished(Err(error)),
            (CallState::Sending, CallEvent::Sent) => CallState::AwaitingResponse,
            (CallState::Sending, CallEvent::NotSent) => CallState::ReadingCause,
            (CallState::AwaitingResponse, CallEvent::Response(value)) => CallState::Finished(
                Ok(value),
            ),
            (CallState::AwaitingResponse, CallEvent::ResponseDropped) => CallState::AwaitingFailure,
            (CallState::AwaitingResponse, CallEvent::CoreFailed) => CallState::ReadingCause,
            (CallState::AwaitingFailure, CallEvent::CoreFailed) => CallState::ReadingCause,
            (CallState::AwaitingFailure, CallEvent::TimedOut) => CallState::Finished(
                Err(Fatal::Stopped),
            ),
            (CallState::ReadingCause, CallEvent::Read(Err(error))) => CallState::Finished(
                Err(error),
            ),
            (CallState::ReadingCause, CallEvent::Read(Ok(()))) => CallState::Joining,
            (CallState::Joining, CallEvent::Exited(error)) => CallState::Finished(Err(error)),
            _ => self,
        }
    }

    /// Take the call one step further.
    pub fn on(self, event: CallEvent<T, S>) -> (r: Self)
        ensures
            r == self.after(event),
    {
        match self {
            CallState::Starting => match event {
                CallEvent::Read(Ok(())) => CallState::Sending,
                CallEvent::Read(Err(error)) => CallState::Finished(Err(error)),
                _ => CallState::Starting,
            },
            CallState::Sending => match event {
                CallEvent::Sent => CallState::AwaitingResponse,
                CallEvent::NotSent => CallState::ReadingCause,
                _ => CallState::Sending,
            },
            CallState::AwaitingResponse => match event {
                CallEvent::Response(value) => CallState::Finished(Ok(value)),
                CallEvent::ResponseDropped => CallState::AwaitingFailure,
                CallEvent::CoreFailed => CallState::ReadingCause,
                _ => CallState::AwaitingResponse,
            },
            CallState::AwaitingFailure => match event {
                CallEvent::CoreFailed => CallState::ReadingCause,
                CallEvent::TimedOut => CallState::Finished(Err(Fatal::Stopped)),
                _ => CallState::AwaitingFailure,
            },
            CallState::ReadingCause => match event {
                CallEvent::Read(Err(error)) => CallState::Finished(Err(error)),
                CallEvent::Read(Ok(())) => CallState::Joining,
                _ => CallState::ReadingCause,
            },
            CallState::Joining => match event {
                CallEvent::Exited(error) => CallState::Finished(Err(error)),
                _ => CallState::Joining,
            },
            CallState::Finished(result) => CallState::Finished(result),
        }
    }

    /// What a caller that only sends gets: nothing more is waited for once the
    /// message is sent. The call goes on where the result is not known yet.
    pub fn into_send_result(self) -> (r: Result<RunningState<S>, Self>)
        ensures
            r == match self {
                CallState::AwaitingResponse => Ok::<RunningState<S>, Self>(Ok(())),
                CallState::Finished(Ok(_)) => Ok(Ok(())),
                CallState::Finished(Err(error)) => Ok(Err(error)),
                state => Err(state),
            },
    {
        match self {
            CallState::AwaitingResponse => Ok(Ok(())),
            CallState::Finished(Ok(_)) => Ok(Ok(())),
            CallState::Finished(Err(error)) => Ok(Err(error)),
            state => Err(state),
        }
    }

    /// What a caller that waits for a response gets, once the call is over. The
    /// call goes on where the result is not known yet.
    pub fn into_result(self) -> (r: Result<Result<T, Fatal<S>>, Self>)
        ensures
            r == match self {
                CallState::Finished(result) => Ok::<Result<T, Fatal<S>>, Self>(result),
                state => Err(state),
            },
    {
        match self {
            CallState::Finished(result) => Ok(result),
            state => Err(state),
        }
    }

    /// What is ready for a call that awaits its response, `response` being what
    /// its channel has: nothing yet, or that it closed, with or without a reply.
    /// A response that is there already comes before the failure of the core.
    pub open spec fn ready_event(response: Option<Option<T>>, core_failed: bool) -> Option<
        CallEvent<T, S>,
    > {
        match response {
            Some(Some(value)) => Some(CallEvent::Response(value)),
            Some(None) => Some(CallEvent::ResponseDropped),
            None => if core_failed {
                Some(CallEvent::CoreFailed)
            } else {
                None
            },
        }
    }

    /// What is ready for a call that awaits its response, if anything is.
    pub fn ready(response: Option<Option<T>>, core_failed: bool) -> (r: Option<CallEvent<T, S>>)
        ensures
            r == Self::ready_event(response, core_failed),
    {
        match response {
            Some(Some(value)) => Some(CallEvent::Response(value)),
            Some(None) => Some(CallEvent::ResponseDropped),
            None => if core_failed {
                Some(CallEvent::CoreFailed)
            } else {
                None
            },
        }
    }

    /// The state after a history.
    pub open spec fn after_all(self, history: Seq<CallEvent<T, S>>) -> Self
        decreases history.len(),
    {
        if history.len() == 0 {
            self
        } else {
            self.after_all(history.drop_last()).after(history.last())
        }
    }

    /// How far the call has come.
    spec fn stage(self) -> int {
        match self {
            CallState::Starting => 0,
            CallState::Sending => 1,
            CallState::AwaitingResponse => 2,
            CallState::AwaitingFailure => 3,
            CallState::ReadingCause => 4,
            CallState::Joining => 5,
            CallState::Finished(_) => 6,
        }
    }
}

/// The error of a call whose answer is itself a result: the core stopped, or
/// the core refused the call.
#[derive(Clone, Debug, PartialEq, Eq)]
pub enum RaftError<E, S> {
    APIError(E),
    Fatal(Fatal<S>),
}

/// What a caller gets of a finished call.
pub fn call_result<T, E, S>(answer: Result<Result<T, E>, Fatal<S>>) -> (r: Result<
    T,
    RaftError<E, S>,
>)
    ensures
        r == match answer {
            Ok(Ok(value)) => Ok::<T, RaftError<E, S>>(value),
            Ok(Err(error)) => Err(RaftError::APIError(error)),
            Err(fatal) => Err(RaftError::Fatal(fatal)),
        },
{
    match answer {
        Ok(Ok(value)) => Ok(value),
        Ok(Err(error)) => Err(RaftError::APIError(error)),
        Err(fatal) => Err(RaftError::Fatal(fatal)),
    }
}

/// A finished call stays finished, with the same result.
pub proof fn law_result_is_final<T, S>(
    result: Result<T, Fatal<S>>,
    history: Seq<CallEvent<T, S>>,
)
    ensures
        CallState::Finished(result).after_all(history) == CallState::Finished(result),
    decreases history.len(),
{
    if history.len() > 0 {
        law_result_is_final(result, history.drop_last());
    }
}

proof fn lemma_stage_never_decreases<T, S>(state: CallState<T, S>, history: Seq<CallEvent<T, S>>)
    ensures
        state.after_all(history).stage() >= state.stage(),
    decreases history.len(),
{
    if history.len() > 0 {
        lemma_stage_never_decreases(state, history.drop_last());
    }
}

/// A reply that is delivered while the call waits for it is what the call
/// returns, whatever the core does afterwards.
pub proof fn law_reply_is_returned<T, S>(
    before: Seq<CallEvent<T, S>>,
    value: T,
    later: Seq<CallEvent<T, S>>,
)
    requires
        CallState::<T, S>::Starting.after_all(before) is AwaitingResponse,
    ensures
        CallState::<T, S>::Starting.after_all(before.push(CallEvent::Response(value))).after_all(
            later,
        ) == CallState::<T, S>::Finished(Ok(value)),
{
    assert(before.push(CallEvent::Response(value)).drop_last() == before);
    law_result_is_final::<T, S>(Ok(value), later);
}

/// A reply that is there when the core is seen to have failed is what the call
/// returns: a delivered reply comes before the failure.
pub proof fn law_delivered_reply_comes_before_a_failure<T, S>(
    value: T,
    core_failed: bool,
    later: Seq<CallEvent<T, S>>,
)
    ensures
        CallState::<T, S>::ready_event(Some(Some(value)), core_failed) matches Some(event)
            && CallState::<T, S>::AwaitingResponse.after(event).after_all(later)
            == CallState::<T, S>::Finished(Ok(value)),
{
    law_result_is_final::<T, S>(Ok(value), later);
}

/// Without a response a failure of the core releases a waiting caller, whoever
/// still owns the responder; without either the call goes on waiting.
pub proof fn law_failure_releases_a_waiting_caller<T, S>(
    error: Fatal<S>,
    later: Seq<CallEvent<T, S>>,
)
    ensures
        CallState::<T, S>::ready_event(None, true) matches Some(event)
            && CallState::<T, S>::AwaitingResponse.after(event).after(
            CallEvent::Read(Err(error)),
        ).after_all(later) == CallState::<T, S>::Finished(Err(error)),
        CallState::<T, S>::ready_event(None, false) is None,
{
    law_result_is_final::<T, S>(Err(error), later);
}

/// A call returns a reply only if that very reply was delivered to it.
pub proof fn law_only_a_delivered_reply_is_returned<T, S>(history: Seq<CallEvent<T, S>>, value: T)
    requires
        CallState::<T, S>::Starting.after_all(history) == CallState::<T, S>::Finished(Ok(value)),
    ensures
        history.contains(CallEvent::Response(value)),
    decreases history.len(),
{
    let earlier = history.drop_last();
    if CallState::<T, S>::Starting.after_all(earlier) == CallState::<T, S>::Finished(Ok(value)) {
        law_only_a_delivered_reply_is_returned(earlier, value);
        let i = choose|i: int| 0 <= i < earlier.len() && earlier[i] == CallEvent::<T, S>::Response(
            value,
        );
        assert(history[i] == CallEvent::<T, S>::Response(value));
    } else {
        assert(history[history.len() - 1] == CallEvent::<T, S>::Response(value));
    }
}

/// A call that is started when a cause is published already returns that
/// cause, and sends nothing.
pub proof fn law_known_failure_is_returned_at_once<T, S>(
    error: Fatal<S>,
    later: Seq<CallEvent<T, S>>,
)
    ensures
        CallState::<T, S>::Starting.after(CallEvent::Read(Err(error))).after_all(later)
            == CallState::<T, S>::Finished(Err(error)),
{
    law_result_is_final::<T, S>(Err(error), later);
}

/// A caller that waits when the core fails gets the published cause, without
/// waiting for the core task to end, whether or not its response channel had
/// closed before.
pub proof fn law_waiting_caller_gets_the_published_cause<T, S>(
    state: CallState<T, S>,
    error: Fatal<S>,
    later: Seq<CallEvent<T, S>>,
)
    requires
        state is AwaitingResponse || state is AwaitingFailure,
    ensures
        state.after(CallEvent::CoreFailed).after(CallEvent::Read(Err(error))).after_all(later)
            == CallState::<T, S>::Finished(Err(error)),
{
    law_result_is_final::<T, S>(Err(error), later);
}

/// A dropped responder while the core runs ends the call with `Stopped` after
/// the bounded wait, without joining the core.
pub proof fn law_dropped_responder_does_not_hang<T, S>(later: Seq<CallEvent<T, S>>)
    ensures
        CallState::<T, S>::AwaitingResponse.after(CallEvent::ResponseDropped).after(
            CallEvent::TimedOut,
        ).after_all(later) == CallState::<T, S>::Finished(Err(Fatal::Stopped)),
{
    law_result_is_final::<T, S>(Err(Fatal::Stopped), later);
}

/// A message is sent at most once: a call never comes back to sending.
pub proof fn law_message_is_sent_at_most_once<T, S>(
    state: CallState<T, S>,
    history: Seq<CallEvent<T, S>>,
)
    requires
        !(state is Starting) && !(state is Sending),
    ensures
        !(state.after_all(history) is Sending),
{
    lemma_stage_never_decreases(state, history);
}

/// The exit of the core is reported by the error that it returned, as a panic,
/// or, if it was cancelled, as stopped.
pub proof fn law_exit_is_reported_as_it_was<S>(returned: Fatal<S>)
    ensures
        CoreExit::Returned(returned).error() == returned,
        CoreExit::<S>::Panicked.error() is Panicked,
        CoreExit::<S>::Cancelled.error() is Stopped,
{
}

/// A call that has to learn the cause from a core that published none returns
/// exactly the error with which the core task ended.
pub proof fn law_joined_core_gives_its_error<T, S>(
    state: CallState<T, S>,
    error: Fatal<S>,
    later: Seq<CallEvent<T, S>>,
)
    requires
        state is ReadingCause,
    ensures
        state.after(CallEvent::Read(Ok(()))).after(CallEvent::Exited(error)).after_all(later)
            == CallState::<T, S>::Finished(Err(error)),
{
    law_result_is_final::<T, S>(Err(error), later);
}

/// A caller that waits when the core ends without publishing a cause gets the
/// error with which the core task ended, whether or not its response channel
/// had closed before.
pub proof fn law_waiting_caller_gets_the_error_of_the_exit<T, S>(
    state: CallState<T, S>,
    error: Fatal<S>,
    later: Seq<CallEvent<T, S>>,
)
    requires
        state is AwaitingResponse || state is AwaitingFailure,
    ensures
        state.after(CallEvent::CoreFailed).after(CallEvent::Read(Ok(()))).after(
            CallEvent::Exited(error),
        ).after_all(later) == CallState::<T, S>::Finished(Err(error)),
{
    law_result_is_final::<T, S>(Err(error), later);
}

/// A call whose message a core does not take returns the cause that the core
/// published, or else the error with which the core task ended.
pub proof fn law_refused_message_reports_why<T, S>(
    published: Fatal<S>,
    ended: Fatal<S>,
    later: Seq<CallEvent<T, S>>,
)
    ensures
        ({
            let refused = CallState::<T, S>::Starting.after(CallEvent::Read(Ok(()))).after(
                CallEvent::NotSent,
            );
            &&& refused.after(CallEvent::Read(Err(published))).after_all(later)
                == CallState::<T, S>::Finished(Err(published))
            &&& refused.after(CallEvent::Read(Ok(()))).after(CallEvent::Exited(ended)).after_all(
                later,
            ) == CallState::<T, S>::Finished(Err(ended))
        }),
{
    law_result_is_final::<T, S>(Err(published), later);
    law_result_is_final::<T, S>(Err(ended), later);
}

/// A call to a core that runs, takes the message and answers returns the
/// answer.
pub proof fn law_answered_call_returns_the_answer<T, S>(value: T, later: Seq<CallEvent<T, S>>)
    ensures
        CallState::<T, S>::Starting.after(CallEvent::Read(Ok(()))).after(CallEvent::Sent).after(
            CallEvent::Response(value),
        ).after_all(later) == CallState::<T, S>::Finished(Ok(value)),
{
    law_result_is_final::<T, S>(Ok(value), later);
}

/// A call fails only with an error that the core published or ended with, or as
/// stopped after the bounded wait.
pub proof fn law_only_reported_errors_are_returned<T, S>(
    history: Seq<CallEvent<T, S>>,
    error: Fatal<S>,
)
    requires
        CallState::<T, S>::Starting.after_all(history) == CallState::<T, S>::Finished(Err(error)),
    ensures
        exists|i: int|
            0 <= i < history.len() && match #[trigger] history[i] {
                CallEvent::Read(Err(cause)) => cause == error,
                CallEvent::Exited(cause) => cause == error,
                CallEvent::TimedOut => error is Stopped,
                _ => false,
            },
    decreases history.len(),
{
    let earlier = history.drop_last();
    if CallState::<T, S>::Starting.after_all(earlier) == CallState::<T, S>::Finished(Err(error)) {
        law_only_reported_errors_are_returned(earlier, error);
        let i = choose|i: int|
            0 <= i < earlier.len() && match #[trigger] earlier[i] {
                CallEvent::Read(Err(cause)) => cause == error,
                CallEvent::Exited(cause) => cause == error,
                CallEvent::TimedOut => error is Stopped,
                _ => false,
            };
        assert(history[i] == earlier[i]);
    } else {
        assert(history[history.len() - 1] == history.last());
    }
}

/// What a call does not wait for changes nothing: a message that is under way
/// is not affected by what the core publishes, a caller that waits for its
/// response is not affected by the end of a bounded wait, and only a response
/// ends the wait for a response.
pub proof fn law_unawaited_events_change_nothing<T, S>(
    state: CallState<T, S>,
    event: CallEvent<T, S>,
)
    requires
        match event {
            CallEvent::Read(_) => !(state is Starting) && !(state is ReadingCause),
            CallEvent::Sent => !(state is Sending),
            CallEvent::NotSent => !(state is Sending),
            CallEvent::Response(_) => !(state is AwaitingResponse),
            CallEvent::ResponseDropped => !(state is AwaitingResponse),
            CallEvent::CoreFailed => !(state is AwaitingResponse) && !(state is AwaitingFailure),
            CallEvent::TimedOut => !(state is AwaitingFailure),
            CallEvent::Exited(_) => !(state is Joining),
        },
    ensures
        state.after(event) == state,
{
}

/// What is ready of a response is never turned into something else: a closed
/// channel is a dropped response, however the core fares.
pub proof fn law_closed_channel_is_a_dropped_response<T, S>(core_failed: bool)
    ensures
        CallState::<T, S>::ready_event(Some(None), core_failed) == Some(
            CallEvent::<T, S>::ResponseDropped,
        ),
        CallState::<T, S>::AwaitingResponse.after(CallEvent::ResponseDropped) is AwaitingFailure,
{
}

} // verus!
