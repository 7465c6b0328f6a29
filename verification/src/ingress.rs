use vstd::prelude::*;

use crate::invocation::{spec_is_idempotent, RequestId, ServiceInvocation, SubmittedInvocationNotification};

verus! {

/// How a dispatcher retries requests that are safe to retry: a fixed delay
/// between attempts, with an optional bound on their number.
#[derive(Debug, Copy, Clone, PartialEq, Eq, Structural)]
pub struct FixedDelayRetry {
    pub interval_millis: u64,
    pub max_attempts: Option<usize>,
}

impl FixedDelayRetry {
    /// Whether another attempt is made after `failed_attempts` attempts have
    /// failed: always without a limit, otherwise while fewer than
    /// `max_attempts` have failed.
    pub fn allows_retry(&self, failed_attempts: usize) -> (r: bool)
        ensures
            r == match self.max_attempts {
                Some(max) => failed_attempts < max,
                None => true,
            },
    {
        match self.max_attempts {
            Some(max) => failed_attempts < max,
            None => true,
        }
    }
}

/// Dispatches ingress requests to partition processors through `client`.
pub struct RpcRequestDispatcher<C> {
    pub partition_processor_rpc_client: C,
    pub retry_policy: FixedDelayRetry,
    pub rpc_timeout_millis: u64,
}

impl<C> RpcRequestDispatcher<C> {
    /// A dispatcher that retries every 50 ms without bound and gives each
    /// request 5 s.
    pub fn new(partition_processor_rpc_client: C) -> (d: Self)
        ensures
            d.partition_processor_rpc_client == partition_processor_rpc_client,
            d.retry_policy == (FixedDelayRetry { interval_millis: 50, max_attempts: None }),
            d.rpc_timeout_millis == 5000,
    {
        RpcRequestDispatcher {
            partition_processor_rpc_client,
            retry_policy: FixedDelayRetry { interval_millis: 50, max_attempts: None },
            rpc_timeout_millis: 5000,
        }
    }

    /// Whether waiting for the submit notification of `invocation` may be
    /// retried: then the dispatcher waits for the notification, retrying;
    /// otherwise it only waits, once, for the invocation to be appended.
    pub fn wait_for_submit_notification(&self, invocation: &ServiceInvocation) -> (r: bool)
        ensures
            r == spec_is_idempotent(invocation),
    {
        invocation.is_idempotent()
    }

    /// Whether appending `invocation` and waiting for its output may be
    /// retried.
    pub fn output_request_retryable(&self, invocation: &ServiceInvocation) -> (r: bool)
        ensures
            r == spec_is_idempotent(invocation),
    {
        invocation.is_idempotent()
    }

    /// The notification the dispatcher answers with once an invocation that
    /// it did not wait a notification for has been appended.
    pub fn appended_notification(&self, request_id: RequestId) -> (n: SubmittedInvocationNotification)
        ensures
            n == (SubmittedInvocationNotification { request_id, is_new_invocation: true }),
    {
        SubmittedInvocationNotification { request_id, is_new_invocation: true }
    }
}

/// Delays between the attempts to submit an invocation: starting at
/// `initial_millis`, doubling after each attempt up to `max_millis`, for at
/// most `max_attempts` attempts.
pub struct ExponentialRetry {
    next_delay_millis: u64,
    max_millis: u64,
    remaining: usize,
}

impl ExponentialRetry {
    pub closed spec fn delay(&self) -> nat {
        self.next_delay_millis as nat
    }

    pub closed spec fn cap(&self) -> nat {
        self.max_millis as nat
    }

    pub closed spec fn attempts_left(&self) -> nat {
        self.remaining as nat
    }

    pub fn new(initial_millis: u64, max_attempts: usize, max_millis: u64) -> (r: Self)
        ensures
            r.delay() == (if initial_millis <= max_millis { initial_millis } else { max_millis }),
            r.cap() == max_millis,
            r.attempts_left() == max_attempts,
    {
        let first = if initial_millis <= max_millis { initial_millis } else { max_millis };
        ExponentialRetry { next_delay_millis: first, max_millis, remaining: max_attempts }
    }

    /// The retry policy of invocation submissions: 100 ms doubling up to 5 s,
    /// at most 20 attempts.
    pub fn for_submission() -> (r: Self)
        ensures
            r.delay() == 100,
            r.cap() == 5000,
            r.attempts_left() == 20,
    {
        Self::new(100, 20, 5000)
    }

    /// The delay before the next attempt, or `None` once the attempts are
    /// used up.
    pub fn next(&mut self) -> (r: Option<u64>)
        ensures
            old(self).attempts_left() == 0 ==> r is None && *final(self) == *old(self),
            old(self).attempts_left() > 0 ==> {
                &&& r == Some(old(self).delay() as u64)
                &&& final(self).attempts_left() == old(self).attempts_left() - 1
                &&& final(self).cap() == old(self).cap()
                &&& final(self).delay() == (if 2 * old(self).delay() <= old(self).cap() {
                    2 * old(self).delay()
                } else {
                    old(self).cap()
                })
            },
    {
        if self.remaining == 0 {
            return None;
        }
        let delay = self.next_delay_millis;
        self.remaining = self.remaining - 1;
        self.next_delay_millis = if delay <= self.max_millis / 2 {
            delay * 2
        } else {
            self.max_millis
        };
        Some(delay)
    }
}

/// What a partition processor answered with an error.
#[derive(Debug, Copy, Clone, PartialEq, Eq, Structural)]
pub enum RemoteError {
    NotLeader,
    Busy,
    Internal,
}

/// What the dispatcher learns from the last action it asked for.
#[derive(Debug, Copy, Clone, PartialEq, Eq, Structural)]
pub enum SubmitEvent {
    /// The submit or attach request could not be sent; `shutdown` when the
    /// node is shutting down.
    CallFailed { shutdown: bool },
    /// The submit or attach request opened a response stream.
    StreamOpened,
    /// The response stream ended without an item.
    StreamClosed,
    /// Reading the response stream failed.
    NetworkError,
    /// The partition processor accepted the invocation.
    Submitted,
    /// The partition processor sent the invocation's output.
    Output,
    /// The partition processor answered with an error.
    Rejected(RemoteError),
    /// Whether the retry policy allowed one more attempt (after its delay).
    RetryAllowed(bool),
}

/// Why submitting an invocation failed.
#[derive(Debug, Copy, Clone, PartialEq, Eq, Structural)]
pub enum SubmitFailure {
    Shutdown,
    SubmitRequestFailed,
    AttachRequestFailed,
    StreamClosed,
    NetworkError,
    InternalError,
    RpcError,
}

/// What the dispatcher has to do next.
#[derive(Debug, Copy, Clone, PartialEq, Eq, Structural)]
pub enum SubmitAction {
    /// Send the invocation to its partition processor.
    CallSubmit,
    /// Attach to the invocation's output.
    CallAttach,
    /// Read the next item of the open response stream.
    ReadStream,
    /// Ask the retry policy for one more attempt, after refreshing the
    /// partition routing when `refresh`.
    Retry { refresh: bool },
    /// Hand the output just read to the caller.
    ReturnOutput,
    /// Give up.
    Fail(SubmitFailure),
}

/// Where a submission resumes after a retry.
#[derive(Debug, Copy, Clone, PartialEq, Eq, Structural)]
pub enum Resume {
    /// Send the invocation again.
    Submitting,
    /// Attach to the invocation's output again.
    Attaching,
}

/// Where the submission of an invocation stands.
#[derive(Debug, Copy, Clone, PartialEq, Eq, Structural)]
pub enum SubmitPhase {
    /// Sending the invocation.
    Submitting,
    /// Waiting for the partition processor to accept the invocation.
    AwaitingSubmitted,
    /// Attaching to the invocation's output.
    Attaching,
    /// Waiting for the invocation's output.
    AwaitingOutput,
    /// Waiting for the retry policy; on another attempt go to `resume`,
    /// otherwise fail with `exhausted`.
    Retrying { resume: Resume, exhausted: SubmitFailure },
    /// The output was handed to the caller.
    Done,
    /// The submission failed.
    Failed(SubmitFailure),
}

/// The decisions of submitting an invocation and waiting for its output.
#[derive(Debug, Copy, Clone, PartialEq, Eq, Structural)]
pub struct SubmitState {
    pub phase: SubmitPhase,
    pub is_idempotent: bool,
}

/// The invocation was accepted: the submission is in its output stage.
pub open spec fn output_stage(phase: SubmitPhase) -> bool {
    match phase {
        SubmitPhase::Attaching | SubmitPhase::AwaitingOutput | SubmitPhase::Done => true,
        SubmitPhase::Retrying { resume, .. } => resume == Resume::Attaching,
        _ => false,
    }
}

/// The event can happen in the phase: what an open stream yields while
/// waiting for the acceptance is never an output, and never an acceptance
/// while waiting for the output.
pub open spec fn event_expected(phase: SubmitPhase, event: SubmitEvent) -> bool {
    match phase {
        SubmitPhase::Submitting | SubmitPhase::Attaching => event is CallFailed || event is StreamOpened,
        SubmitPhase::AwaitingSubmitted => event is StreamClosed || event is NetworkError
            || event is Submitted || event is Rejected,
        SubmitPhase::AwaitingOutput => event is StreamClosed || event is NetworkError || event is Output
            || event is Rejected,
        SubmitPhase::Retrying { .. } => event is RetryAllowed,
        SubmitPhase::Done | SubmitPhase::Failed(_) => false,
    }
}

/// The action that comes with entering `phase`.
pub open spec fn action_of(phase: SubmitPhase) -> SubmitAction {
    match phase {
        SubmitPhase::Submitting => SubmitAction::CallSubmit,
        SubmitPhase::Attaching => SubmitAction::CallAttach,
        SubmitPhase::AwaitingSubmitted | SubmitPhase::AwaitingOutput => SubmitAction::ReadStream,
        SubmitPhase::Retrying { .. } => SubmitAction::Retry { refresh: false },
        SubmitPhase::Done => SubmitAction::ReturnOutput,
        SubmitPhase::Failed(f) => SubmitAction::Fail(f),
    }
}

/// The phase after `event` in `phase`.
pub open spec fn next_phase(phase: SubmitPhase, is_idempotent: bool, event: SubmitEvent) -> SubmitPhase {
    match phase {
        SubmitPhase::Submitting => match event {
            SubmitEvent::CallFailed { shutdown } => if shutdown {
                SubmitPhase::Failed(SubmitFailure::Shutdown)
            } else {
                SubmitPhase::Retrying {
                    resume: Resume::Submitting,
                    exhausted: SubmitFailure::SubmitRequestFailed,
                }
            },
            _ => SubmitPhase::AwaitingSubmitted,
        },
        SubmitPhase::AwaitingSubmitted => match event {
            SubmitEvent::StreamClosed => if is_idempotent {
                SubmitPhase::Submitting
            } else {
                SubmitPhase::Failed(SubmitFailure::StreamClosed)
            },
            SubmitEvent::NetworkError => if is_idempotent {
                SubmitPhase::Submitting
            } else {
                SubmitPhase::Failed(SubmitFailure::NetworkError)
            },
            SubmitEvent::Submitted => SubmitPhase::AwaitingOutput,
            SubmitEvent::Rejected(RemoteError::Internal) => if is_idempotent {
                SubmitPhase::Retrying { resume: Resume::Submitting, exhausted: SubmitFailure::RpcError }
            } else {
                SubmitPhase::Failed(SubmitFailure::InternalError)
            },
            _ => SubmitPhase::Retrying { resume: Resume::Submitting, exhausted: SubmitFailure::RpcError },
        },
        SubmitPhase::Attaching => match event {
            SubmitEvent::CallFailed { shutdown } => if shutdown {
                SubmitPhase::Failed(SubmitFailure::Shutdown)
            } else {
                SubmitPhase::Retrying {
                    resume: Resume::Attaching,
                    exhausted: SubmitFailure::AttachRequestFailed,
                }
            },
            _ => SubmitPhase::AwaitingOutput,
        },
        SubmitPhase::AwaitingOutput => match event {
            SubmitEvent::Output => SubmitPhase::Done,
            SubmitEvent::StreamClosed => SubmitPhase::Retrying {
                resume: Resume::Attaching,
                exhausted: SubmitFailure::StreamClosed,
            },
            SubmitEvent::NetworkError => SubmitPhase::Retrying {
                resume: Resume::Attaching,
                exhausted: SubmitFailure::NetworkError,
            },
            _ => SubmitPhase::Retrying { resume: Resume::Attaching, exhausted: SubmitFailure::RpcError },
        },
        SubmitPhase::Retrying { resume, exhausted } => match event {
            SubmitEvent::RetryAllowed(true) => match resume {
                Resume::Submitting => SubmitPhase::Submitting,
                Resume::Attaching => SubmitPhase::Attaching,
            },
            _ => SubmitPhase::Failed(exhausted),
        },
        _ => phase,
    }
}

/// The action after `event` in `phase`: the action of the next phase, with a
/// routing refresh first when the partition processor was not the leader.
pub open spec fn next_action(phase: SubmitPhase, is_idempotent: bool, event: SubmitEvent) -> SubmitAction {
    let next = next_phase(phase, is_idempotent, event);
    if event == SubmitEvent::Rejected(RemoteError::NotLeader) {
        SubmitAction::Retry { refresh: true }
    } else {
        action_of(next)
    }
}

impl SubmitState {
    /// Starts the submission of an invocation: send it.
    pub fn start(is_idempotent: bool) -> (r: (SubmitState, SubmitAction))
        ensures
            r.0 == (SubmitState { phase: SubmitPhase::Submitting, is_idempotent }),
            r.1 == SubmitAction::CallSubmit,
    {
        (SubmitState { phase: SubmitPhase::Submitting, is_idempotent }, SubmitAction::CallSubmit)
    }

    /// Whether `event` can answer the last action; any other event is a
    /// response the partition processor must not send.
    pub fn expects(&self, event: SubmitEvent) -> (r: bool)
        ensures
            r == event_expected(self.phase, event),
    {
        match self.phase {
            SubmitPhase::Submitting | SubmitPhase::Attaching => match event {
                SubmitEvent::CallFailed { .. } | SubmitEvent::StreamOpened => true,
                _ => false,
            },
            SubmitPhase::AwaitingSubmitted => match event {
                SubmitEvent::StreamClosed | SubmitEvent::NetworkError | SubmitEvent::Submitted
                | SubmitEvent::Rejected(_) => true,
                _ => false,
            },
            SubmitPhase::AwaitingOutput => match event {
                SubmitEvent::StreamClosed | SubmitEvent::NetworkError | SubmitEvent::Output
                | SubmitEvent::Rejected(_) => true,
                _ => false,
            },
            SubmitPhase::Retrying { .. } => match event {
                SubmitEvent::RetryAllowed(_) => true,
                _ => false,
            },
            SubmitPhase::Done | SubmitPhase::Failed(_) => false,
        }
    }

    /// Takes the outcome of the last action and decides the next one.
    pub fn step(&mut self, event: SubmitEvent) -> (action: SubmitAction)
        requires
            event_expected(old(self).phase, event),
        ensures
            final(self).is_idempotent == old(self).is_idempotent,
            final(self).phase == next_phase(old(self).phase, old(self).is_idempotent, event),
            action == next_action(old(self).phase, old(self).is_idempotent, event),
    {
        let next = match self.phase {
            SubmitPhase::Submitting => match event {
                SubmitEvent::CallFailed { shutdown } => if shutdown {
                    SubmitPhase::Failed(SubmitFailure::Shutdown)
                } else {
                    SubmitPhase::Retrying {
                        resume: Resume::Submitting,
                        exhausted: SubmitFailure::SubmitRequestFailed,
                    }
                },
                _ => SubmitPhase::AwaitingSubmitted,
            },
            SubmitPhase::AwaitingSubmitted => match event {
                SubmitEvent::StreamClosed => if self.is_idempotent {
                    SubmitPhase::Submitting
                } else {
                    SubmitPhase::Failed(SubmitFailure::StreamClosed)
                },
                SubmitEvent::NetworkError => if self.is_idempotent {
                    SubmitPhase::Submitting
                } else {
                    SubmitPhase::Failed(SubmitFailure::NetworkError)
                },
                SubmitEvent::Submitted => SubmitPhase::AwaitingOutput,
                SubmitEvent::Rejected(RemoteError::Internal) => if self.is_idempotent {
                    SubmitPhase::Retrying {
                        resume: Resume::Submitting,
                        exhausted: SubmitFailure::RpcError,
                    }
                } else {
                    SubmitPhase::Failed(SubmitFailure::InternalError)
                },
                _ => SubmitPhase::Retrying {
                    resume: Resume::Submitting,
                    exhausted: SubmitFailure::RpcError,
                },
            },
            SubmitPhase::Attaching => match event {
                SubmitEvent::CallFailed { shutdown } => if shutdown {
                    SubmitPhase::Failed(SubmitFailure::Shutdown)
                } else {
                    SubmitPhase::Retrying {
                        resume: Resume::Attaching,
                        exhausted: SubmitFailure::AttachRequestFailed,
                    }
                },
                _ => SubmitPhase::AwaitingOutput,
            },
            SubmitPhase::AwaitingOutput => match event {
                SubmitEvent::Output => SubmitPhase::Done,
                SubmitEvent::StreamClosed => SubmitPhase::Retrying {
                    resume: Resume::Attaching,
                    exhausted: SubmitFailure::StreamClosed,
                },
                SubmitEvent::NetworkError => SubmitPhase::Retrying {
                    resume: Resume::Attaching,
                    exhausted: SubmitFailure::NetworkError,
                },
                _ => SubmitPhase::Retrying {
                    resume: Resume::Attaching,
                    exhausted: SubmitFailure::RpcError,
                },
            },
            SubmitPhase::Retrying { resume, exhausted } => match event {
                SubmitEvent::RetryAllowed(true) => match resume {
                    Resume::Submitting => SubmitPhase::Submitting,
                    Resume::Attaching => SubmitPhase::Attaching,
                },
                _ => SubmitPhase::Failed(exhausted),
            },
            other => other,
        };
        self.phase = next;
        let refresh = match event {
            SubmitEvent::Rejected(RemoteError::NotLeader) => true,
            _ => false,
        };
        if refresh {
            SubmitAction::Retry { refresh: true }
        } else {
            match next {
                SubmitPhase::Submitting => SubmitAction::CallSubmit,
                SubmitPhase::Attaching => SubmitAction::CallAttach,
                SubmitPhase::AwaitingSubmitted | SubmitPhase::AwaitingOutput => SubmitAction::ReadStream,
                SubmitPhase::Retrying { .. } => SubmitAction::Retry { refresh: false },
                SubmitPhase::Done => SubmitAction::ReturnOutput,
                SubmitPhase::Failed(f) => SubmitAction::Fail(f),
            }
        }
    }
}

/// An event whose outcome leaves open whether the partition processor took
/// the invocation.
pub open spec fn ambiguous(event: SubmitEvent) -> bool {
    event == SubmitEvent::StreamClosed || event == SubmitEvent::NetworkError || event
        == SubmitEvent::Rejected(RemoteError::Internal)
}

/// A non-idempotent invocation is never submitted again once a submission
/// may have reached the partition processor: an ambiguous answer to it fails
/// the request.
pub proof fn law_non_idempotent_submitted_at_most_once(event: SubmitEvent)
    requires
        ambiguous(event),
    ensures
        next_phase(SubmitPhase::AwaitingSubmitted, false, event) is Failed,
        next_action(SubmitPhase::AwaitingSubmitted, false, event) is Fail,
{
}

/// The number of times the dispatcher sends the invocation while it takes
/// `events`, one after the other, from `phase`.
pub open spec fn submit_calls(phase: SubmitPhase, is_idempotent: bool, events: Seq<SubmitEvent>) -> nat
    decreases events.len(),
{
    if events.len() == 0 {
        0
    } else {
        let sent: nat = if next_action(phase, is_idempotent, events[0]) == SubmitAction::CallSubmit { 1 } else { 0 };
        sent + submit_calls(next_phase(phase, is_idempotent, events[0]), is_idempotent, events.drop_first())
    }
}

/// The number of further attempts the retry policy granted among `events`.
pub open spec fn retries_granted(events: Seq<SubmitEvent>) -> nat
    decreases events.len(),
{
    if events.len() == 0 {
        0
    } else {
        let granted: nat = if events[0] == SubmitEvent::RetryAllowed(true) { 1 } else { 0 };
        granted + retries_granted(events.drop_first())
    }
}

/// A non-idempotent invocation is sent again only when the retry policy
/// grants another attempt: after the first submission, it is sent at most as
/// many times as the policy grants retries, whatever happens in between.
pub proof fn law_non_idempotent_submissions_bounded(phase: SubmitPhase, events: Seq<SubmitEvent>)
    ensures
        submit_calls(phase, false, events) <= retries_granted(events),
    decreases events.len(),
{
    if events.len() > 0 {
        law_non_idempotent_submissions_bounded(next_phase(phase, false, events[0]), events.drop_first());
    }
}

/// An idempotent invocation whose acceptance is left open by a closed stream
/// or a network error is sent again at once, without asking the retry policy.
pub proof fn law_idempotent_resubmits_at_once(event: SubmitEvent)
    requires
        event == SubmitEvent::StreamClosed || event == SubmitEvent::NetworkError,
    ensures
        next_phase(SubmitPhase::AwaitingSubmitted, true, event) == SubmitPhase::Submitting,
        next_action(SubmitPhase::AwaitingSubmitted, true, event) == SubmitAction::CallSubmit,
{
}

/// A busy or non-leader partition processor never ends the request by
/// itself: the dispatcher asks the retry policy for another attempt, of the
/// submission or of the attach it was waiting on, refreshing the routing
/// first when the processor was not the leader.
pub proof fn law_busy_or_not_leader_retried(phase: SubmitPhase, is_idempotent: bool, error: RemoteError)
    requires
        phase == SubmitPhase::AwaitingSubmitted || phase == SubmitPhase::AwaitingOutput,
        error == RemoteError::Busy || error == RemoteError::NotLeader,
    ensures
        next_phase(phase, is_idempotent, SubmitEvent::Rejected(error)) == (SubmitPhase::Retrying {
            resume: if phase == SubmitPhase::AwaitingSubmitted { Resume::Submitting } else { Resume::Attaching },
            exhausted: SubmitFailure::RpcError,
        }),
        next_action(phase, is_idempotent, SubmitEvent::Rejected(error)) == (SubmitAction::Retry {
            refresh: error == RemoteError::NotLeader,
        }),
{
}

/// Once the invocation has been accepted, the dispatcher never submits it
/// again: it only attaches to its output, reads it, or retries attaching.
pub proof fn law_accepted_never_resubmitted(phase: SubmitPhase, is_idempotent: bool, event: SubmitEvent)
    requires
        output_stage(phase),
        event_expected(phase, event),
    ensures
        output_stage(next_phase(phase, is_idempotent, event)) || next_phase(phase, is_idempotent, event) is Failed,
        next_action(phase, is_idempotent, event) != SubmitAction::CallSubmit,
{
}

/// The output goes to the caller only when the partition processor sent it.
pub proof fn law_output_only_from_output(phase: SubmitPhase, is_idempotent: bool, event: SubmitEvent)
    requires
        next_action(phase, is_idempotent, event) == SubmitAction::ReturnOutput,
        event_expected(phase, event),
    ensures
        phase == SubmitPhase::AwaitingOutput,
        event == SubmitEvent::Output,
{
}

/// A node that shuts down ends the request at once.
pub proof fn law_shutdown_fails_at_once(phase: SubmitPhase, is_idempotent: bool)
    requires
        phase == SubmitPhase::Submitting || phase == SubmitPhase::Attaching,
    ensures
        next_action(phase, is_idempotent, SubmitEvent::CallFailed { shutdown: true })
            == SubmitAction::Fail(SubmitFailure::Shutdown),
{
}

} // verus!
