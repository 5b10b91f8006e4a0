//! The decisions of a retrying request: from what an attempt met to what
//! the caller does next.

use vstd::prelude::*;
use crate::retry::classify_status;
use crate::retry::resolution_spec;
use crate::retry::resolve_failure;
use crate::retry::status_class_spec;
use crate::retry::ErrorClass;
use crate::retry::FetchMode;
use crate::retry::Resolution;
use crate::retry::RetryContext;
use crate::retry::StatusClass;
use crate::transfer::classify_transfer_status;
use crate::transfer::transfer_status_spec;

verus! {

/// What one attempt met.
#[derive(Clone, Copy, Debug, PartialEq, Eq, Structural)]
pub enum AttemptEvent {
    /// The request did not get a response, or the body broke off.
    NetworkError,
    /// A response with this status arrived.
    Status { code: u16 },
    /// The body did not decode into the expected shape.
    Malformed,
    /// The destination could not be created, opened or written.
    LocalIo,
}

/// What the caller does next.
#[derive(Clone, Copy, Debug, PartialEq, Eq, Structural)]
pub enum NextAction {
    /// The response is accepted: read its body.
    ReadBody,
    /// Wait this many milliseconds and make the request again.
    Retry { delay_millis: u128 },
    /// Give the unit up and surface the last observed error.
    Fail,
    /// Go on without a result for this unit.
    Absent,
}

/// The failure that an event stands for, given how its status reads; none
/// for an accepted response.
pub open spec fn failure_of(event: AttemptEvent, status: StatusClass) -> Option<ErrorClass> {
    match event {
        AttemptEvent::NetworkError => Some(ErrorClass::Transient),
        AttemptEvent::Malformed => Some(ErrorClass::Malformed),
        AttemptEvent::LocalIo => Some(ErrorClass::LocalIo),
        AttemptEvent::Status { code } => match status {
            StatusClass::Accepted => None,
            StatusClass::Transient => Some(ErrorClass::Transient),
            StatusClass::NonRetryable => Some(ErrorClass::NonRetryable),
        },
    }
}

/// The action that follows from a failure, or from none, in a given retry
/// state.
pub open spec fn action_spec(failure: Option<ErrorClass>, mode: FetchMode, ctx: RetryContext)
    -> NextAction {
    match failure {
        None => NextAction::ReadBody,
        Some(class) => match resolution_spec(class, mode, ctx) {
            Resolution::Retry { delay_millis } => NextAction::Retry { delay_millis },
            Resolution::Fatal => NextAction::Fail,
            Resolution::Absent => NextAction::Absent,
        },
    }
}

/// How the status of an event reads for a document fetch in a mode.
pub open spec fn fetch_status(event: AttemptEvent, mode: FetchMode) -> StatusClass {
    match event {
        AttemptEvent::Status { code } => status_class_spec(code, mode),
        _ => StatusClass::NonRetryable,
    }
}

/// How the status of an event reads for a transfer.
pub open spec fn transfer_status(event: AttemptEvent) -> StatusClass {
    match event {
        AttemptEvent::Status { code } => transfer_status_spec(code),
        _ => StatusClass::NonRetryable,
    }
}

/// Turns a failure, or none, into the action and the new retry state.
fn act(failure: Option<ErrorClass>, mode: FetchMode, ctx: &mut RetryContext) -> (action:
    NextAction)
    requires
        old(ctx).wf(),
    ensures
        final(ctx).wf(),
        action == action_spec(failure, mode, *old(ctx)),
        final(ctx).max_attempts() == old(ctx).max_attempts(),
        final(ctx).backoff_millis() == old(ctx).backoff_millis(),
        action is Retry ==> final(ctx).attempt() == old(ctx).attempt() + 1,
        !(action is Retry) ==> *final(ctx) == *old(ctx),
{
    match failure {
        None => NextAction::ReadBody,
        Some(class) => match resolve_failure(class, mode, ctx) {
            Resolution::Retry { delay_millis } => NextAction::Retry { delay_millis },
            Resolution::Fatal => NextAction::Fail,
            Resolution::Absent => NextAction::Absent,
        },
    }
}

/// The failure that an event stands for, given how its status reads.
fn classify_event(event: AttemptEvent, status: StatusClass) -> (failure: Option<ErrorClass>)
    ensures
        failure == failure_of(event, status),
{
    match event {
        AttemptEvent::NetworkError => Some(ErrorClass::Transient),
        AttemptEvent::Malformed => Some(ErrorClass::Malformed),
        AttemptEvent::LocalIo => Some(ErrorClass::LocalIo),
        AttemptEvent::Status { code } => match status {
            StatusClass::Accepted => None,
            StatusClass::Transient => Some(ErrorClass::Transient),
            StatusClass::NonRetryable => Some(ErrorClass::NonRetryable),
        },
    }
}

/// One step of a retrying document fetch. An accepted response is read; a
/// transient failure is tried again while retries are left; every other
/// failure, and a transient one once they are used up, ends the unit: as
/// failed in strict mode, as absent in lenient mode. A lenient fetch never
/// fails on what the remote side did.
pub fn next_fetch_action(event: AttemptEvent, mode: FetchMode, ctx: &mut RetryContext) -> (action:
    NextAction)
    requires
        old(ctx).wf(),
    ensures
        final(ctx).wf(),
        action == action_spec(failure_of(event, fetch_status(event, mode)), mode, *old(ctx)),
        final(ctx).max_attempts() == old(ctx).max_attempts(),
        final(ctx).backoff_millis() == old(ctx).backoff_millis(),
        action is Retry ==> final(ctx).attempt() == old(ctx).attempt() + 1,
        !(action is Retry) ==> *final(ctx) == *old(ctx),
        mode == FetchMode::Lenient && event != AttemptEvent::LocalIo ==> action != NextAction::Fail,
{
    let status = match event {
        AttemptEvent::Status { code } => classify_status(code, mode),
        _ => StatusClass::NonRetryable,
    };
    let failure = classify_event(event, status);
    act(failure, mode, ctx)
}

/// One step of a retrying transfer: as a strict fetch, but with "OK" and
/// "Partial Content" as the accepted statuses.
pub fn next_transfer_action(event: AttemptEvent, ctx: &mut RetryContext) -> (action: NextAction)
    requires
        old(ctx).wf(),
    ensures
        final(ctx).wf(),
        action == action_spec(
            failure_of(event, transfer_status(event)),
            FetchMode::Strict,
            *old(ctx),
        ),
        final(ctx).max_attempts() == old(ctx).max_attempts(),
        final(ctx).backoff_millis() == old(ctx).backoff_millis(),
        action is Retry ==> final(ctx).attempt() == old(ctx).attempt() + 1,
        !(action is Retry) ==> *final(ctx) == *old(ctx),
        action != NextAction::Absent,
{
    let status = match event {
        AttemptEvent::Status { code } => classify_transfer_status(code),
        _ => StatusClass::NonRetryable,
    };
    let failure = classify_event(event, status);
    act(failure, FetchMode::Strict, ctx)
}

} // verus!
