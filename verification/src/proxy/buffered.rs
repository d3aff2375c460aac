//! A buffered exchange, step by step: pace, retry, and return the upstream
//! response verbatim.
use crate::proxy::flow::Effect;
use crate::proxy::retry::{backoff_for, backoff_of, is_retryable, retryable, CONNECT_BACKOFF_SECS};
use crate::text::opt_text;
use vstd::prelude::*;

verus! {

/// Where a buffered exchange stands.
#[derive(Clone, Copy, Debug, PartialEq, Eq, Structural)]
pub enum BufferedPhase {
    /// Waiting for a permit of the model governor.
    Permit,
    /// Waiting for a rate-limit slot.
    Slot,
    /// The request is on its way upstream.
    Request,
    /// Reading the body of a retryable error.
    RetryBody { status: u16, backoff_secs: u64 },
    /// No slot came before the deadline.
    TimedOut,
    /// The upstream's answer, with this status, is passed on.
    Relay { status: u16 },
}

/// What came of the last action.
#[derive(Debug)]
pub enum BufferedEvent {
    /// A permit, or none before the deadline.
    Permit(bool),
    /// A slot, or none before the deadline.
    Slot(bool),
    /// The request could not be sent.
    ConnectFailed,
    /// The upstream's status line; `late` says that the wait deadline has
    /// passed.
    Status { status: u16, retry_after: Option<String>, late: bool },
    /// The body of an error was read; `exhausted` says that the model's
    /// workers are.
    Body { exhausted: bool },
}

/// The phase after an event, and what befalls lane and model. An event that
/// a phase does not expect changes nothing. The two admission gates come
/// first, on every try; an answer worth waiting out is retried until the
/// deadline, and any other is passed on.
pub open spec fn buffered_step(
    phase: BufferedPhase,
    event: BufferedEvent,
) -> (BufferedPhase, Effect) {
    match (phase, event) {
        (BufferedPhase::Permit, BufferedEvent::Permit(granted)) => (
            if granted {
                BufferedPhase::Slot
            } else {
                BufferedPhase::TimedOut
            },
            Effect::Nothing,
        ),
        (BufferedPhase::Slot, BufferedEvent::Slot(granted)) => (
            if granted {
                BufferedPhase::Request
            } else {
                BufferedPhase::TimedOut
            },
            Effect::Nothing,
        ),
        (BufferedPhase::Request, BufferedEvent::ConnectFailed) => (
            BufferedPhase::Permit,
            Effect::CoolConnect { secs: CONNECT_BACKOFF_SECS },
        ),
        (BufferedPhase::Request, BufferedEvent::Status { status, retry_after, late }) => (
            if is_retryable(status) && !late {
                BufferedPhase::RetryBody {
                    status,
                    backoff_secs: backoff_of(opt_text(retry_after)) as u64,
                }
            } else {
                BufferedPhase::Relay { status }
            },
            Effect::Nothing,
        ),
        (BufferedPhase::RetryBody { status, backoff_secs }, BufferedEvent::Body { exhausted }) => (
            BufferedPhase::Permit,
            if exhausted {
                Effect::NoteExhausted
            } else {
                Effect::CoolStatus { status, secs: backoff_secs }
            },
        ),
        _ => (phase, Effect::Nothing),
    }
}

/// One step of a buffered exchange.
pub fn step_buffered(
    phase: BufferedPhase,
    event: BufferedEvent,
) -> (r: (BufferedPhase, Effect))
    ensures
        r == buffered_step(phase, event),
{
    match (phase, event) {
        (BufferedPhase::Permit, BufferedEvent::Permit(granted)) => {
            if granted {
                (BufferedPhase::Slot, Effect::Nothing)
            } else {
                (BufferedPhase::TimedOut, Effect::Nothing)
            }
        },
        (BufferedPhase::Slot, BufferedEvent::Slot(granted)) => {
            if granted {
                (BufferedPhase::Request, Effect::Nothing)
            } else {
                (BufferedPhase::TimedOut, Effect::Nothing)
            }
        },
        (BufferedPhase::Request, BufferedEvent::ConnectFailed) => (
            BufferedPhase::Permit,
            Effect::CoolConnect { secs: CONNECT_BACKOFF_SECS },
        ),
        (BufferedPhase::Request, BufferedEvent::Status { status, retry_after, late }) => {
            if retryable(status) && !late {
                let backoff_secs: u64 = match &retry_after {
                    Some(s) => backoff_for(Some(s.as_str())),
                    None => backoff_for(None),
                };
                (BufferedPhase::RetryBody { status, backoff_secs }, Effect::Nothing)
            } else {
                (BufferedPhase::Relay { status }, Effect::Nothing)
            }
        },
        // Worker exhaustion is model-scoped (shared across every key), so
        // cooling down the lane would just burn healthy key capacity on a
        // failover that cannot help.
        (BufferedPhase::RetryBody { status, backoff_secs }, BufferedEvent::Body { exhausted }) => {
            if exhausted {
                (BufferedPhase::Permit, Effect::NoteExhausted)
            } else {
                (BufferedPhase::Permit, Effect::CoolStatus { status, secs: backoff_secs })
            }
        },
        _ => (phase, Effect::Nothing),
    }
}

/// A request is sent only after both gates: the phase that sends is reached
/// only from the slot, and the slot only from the permit.
pub proof fn law_both_gates_come_first(phase: BufferedPhase, event: BufferedEvent)
    ensures
        buffered_step(phase, event).0 is Request && !(phase is Request) ==> phase is Slot,
        buffered_step(phase, event).0 is Slot && !(phase is Slot) ==> phase is Permit,
{
}

/// Worker exhaustion never cools a lane down.
pub proof fn law_exhaustion_spares_the_lane(phase: BufferedPhase, event: BufferedEvent)
    requires
        event matches BufferedEvent::Body { exhausted } && exhausted,
    ensures
        !(buffered_step(phase, event).1 is CoolStatus),
        !(buffered_step(phase, event).1 is CoolConnect),
{
}

}
