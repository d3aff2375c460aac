//! How an exchange goes: what each answer of the upstream leads to, what the
//! client sees meanwhile, and how it ends.
use crate::bridge::sse::{error_frame, finish_output, pushed, TranslatorV};
use crate::proxy::buffered::{buffered_step, BufferedEvent, BufferedPhase};
use crate::proxy::flow::{
    flow_start, flow_step, outcome_label, Effect, EventV, FlowV, MoveV, Outcome, PhaseV,
};
use crate::proxy::replies::sse_error_bytes;
use crate::proxy::retry::{backoff_of, is_retryable, shown_status};
use crate::text::{decimal, opt_text};
use vstd::prelude::*;
use vstd::utf8::encode_utf8;

verus! {

/// Whether a move sends nothing, does nothing and ends nothing.
pub open spec fn idle(m: MoveV) -> bool {
    m.frames.len() == 0 && m.effect == Effect::Nothing && m.outcome is None
}

/// What a client is told at the end of a failed stream: an error in the
/// dialect it is spoken to in.
pub open spec fn told_error(f: FlowV, code: Seq<char>, message: Seq<char>) -> Seq<u8> {
    if f.translator is Some && f.translator->0.committed {
        error_frame(code, message)
    } else {
        sse_error_bytes(code, message)
    }
}

/// A plain stream is relayed byte for byte: every chunk is a frame of its
/// own as it came, and the exchange stands as it stood.
pub proof fn law_plain_chunks_are_relayed(f: FlowV, bytes: Seq<u8>)
    requires
        f.translator is None,
        f.phase is Relay,
    ensures
        ({
            let (g, m) = flow_step(f, EventV::Chunk(bytes));
            &&& g == f
            &&& m.frames == seq![bytes]
            &&& m.effect == Effect::Nothing
            &&& m.outcome is None
        }),
{
}

/// A success is relayed; nothing is sent for the status itself, and nothing
/// about the exchange changes but that it relays.
pub proof fn law_success_is_relayed(
    f: FlowV,
    status: u16,
    retry_after: Option<Seq<char>>,
    late: bool,
)
    requires
        f.phase is Request,
        200 <= status < 300,
    ensures
        ({
            let (g, m) = flow_step(f, EventV::Status { status, retry_after, late });
            &&& g == (FlowV { phase: PhaseV::Relay, ..f })
            &&& idle(m)
        }),
{
}

/// A status to be retried sends the exchange back to the start of its wait,
/// once the body is read: the same body will be sent, the lane cools down
/// for as long as upstream said, unless it is the model's workers that are
/// exhausted, and a client of a plain stream sees a comment.
pub proof fn law_busy_upstreams_are_retried(
    f: FlowV,
    status: u16,
    retry_after: Option<Seq<char>>,
    text: Seq<char>,
    exhausted: bool,
)
    requires
        f.phase is Request,
        is_retryable(status),
        backoff_of(retry_after) <= u64::MAX,
    ensures
        ({
            let (g, m) = flow_step(f, EventV::Status { status, retry_after, late: false });
            let (h, n) = flow_step(g, EventV::Body { text, exhausted });
            &&& idle(m)
            &&& h.phase is Permit
            &&& h.body == f.body
            &&& h.fallback == f.fallback
            &&& n.outcome is None
            &&& n.effect == if exhausted {
                Effect::NoteExhausted
            } else {
                Effect::CoolStatus { status, secs: backoff_of(retry_after) as u64 }
            }
            &&& n.frames == if f.translator is None {
                seq![encode_utf8(": retrying\n\n"@)]
            } else {
                Seq::empty()
            }
        }),
{
}

/// A status to be retried that comes after the wait is over ends the
/// exchange in time-out.
pub proof fn law_late_failures_time_out(f: FlowV, status: u16, retry_after: Option<Seq<char>>)
    requires
        f.phase is Request,
        is_retryable(status),
    ensures
        ({
            let (g, m) = flow_step(f, EventV::Status { status, retry_after, late: true });
            &&& g.phase is Done
            &&& m.outcome == Some(Outcome::TimedOut)
            &&& m.frames == seq![
                sse_error_bytes(
                    "upstream_unavailable"@,
                    "upstream unavailable, retries exhausted"@,
                ),
            ]
        }),
{
}

/// A rejected injection falls back once: the client's own body is sent
/// next, from the start of the wait, and the model is remembered.
pub proof fn law_rejected_injections_fall_back(
    f: FlowV,
    own: Seq<u8>,
    retry_after: Option<Seq<char>>,
    late: bool,
)
    requires
        f.phase is Request,
        f.fallback == Some(own),
    ensures
        ({
            let (g, m) = flow_step(f, EventV::Status { status: 400, retry_after, late });
            &&& g.phase is Permit
            &&& g.body == own
            &&& g.fallback is None
            &&& g.translator == f.translator
            &&& m.frames.len() == 0
            &&& m.effect == Effect::RememberRejection
            &&& m.outcome is None
        }),
{
}

/// Any other failure is passed on to the client once its body is read, with
/// its status and its words, and ends the exchange.
pub proof fn law_refusals_are_passed_on(
    f: FlowV,
    status: u16,
    retry_after: Option<Seq<char>>,
    late: bool,
    text: Seq<char>,
    exhausted: bool,
)
    requires
        f.phase is Request,
        !(200 <= status < 300),
        !is_retryable(status),
        status == 400 ==> f.fallback is None,
    ensures
        ({
            let (g, m) = flow_step(f, EventV::Status { status, retry_after, late });
            let (h, n) = flow_step(g, EventV::Body { text, exhausted });
            &&& idle(m)
            &&& h.phase is Done
            &&& n.outcome == Some(Outcome::Refused(status))
            &&& n.effect == Effect::Nothing
            &&& n.frames == seq![
                told_error(
                    f,
                    "upstream_unavailable"@,
                    "upstream error "@ + shown_status(status) + ": "@ + text,
                ),
            ]
        }),
{
}

/// A failed connection is retried from the start of the wait, and the lane
/// cools down for five seconds.
pub proof fn law_failed_connections_are_retried(f: FlowV)
    requires
        f.phase is Request,
    ensures
        ({
            let (g, m) = flow_step(f, EventV::ConnectFailed);
            &&& g == (FlowV { phase: PhaseV::Permit, ..f })
            &&& m.frames.len() == 0
            &&& m.effect == (Effect::CoolConnect { secs: 5 })
            &&& m.outcome is None
        }),
{
}

/// An exchange under way ends when its client hangs up, without a word, and
/// when its deadline passes, with one.
pub proof fn law_clients_and_deadlines_end_it(f: FlowV)
    requires
        !(f.phase is Done),
    ensures
        ({
            let (g, m) = flow_step(f, EventV::Gone);
            &&& g == (FlowV { phase: PhaseV::Done, ..f })
            &&& m.frames.len() == 0
            &&& m.outcome == Some(Outcome::Disconnected)
        }),
        ({
            let (g, m) = flow_step(f, EventV::Deadline);
            &&& g == (FlowV { phase: PhaseV::Done, ..f })
            &&& m.frames == seq![
                told_error(f, "deadline_exceeded"@, "proxy request deadline exceeded"@),
            ]
            &&& m.outcome == Some(Outcome::DeadlineExceeded)
        }),
{
}

/// Waiting ends in a slot or in time-out: a permit leads to the wait for a
/// slot and a slot to the request, without a word; where either does not
/// come, the client is told and the exchange ends.
pub proof fn law_waits_end_in_a_slot_or_a_word(f: FlowV)
    ensures
        f.phase is Permit ==> flow_step(f, EventV::Permit(true)).0 == (FlowV {
            phase: PhaseV::Slot,
            ..f
        }) && idle(flow_step(f, EventV::Permit(true)).1),
        f.phase is Slot ==> flow_step(f, EventV::Slot(true)).0 == (FlowV {
            phase: PhaseV::Request,
            ..f
        }) && idle(flow_step(f, EventV::Slot(true)).1),
        f.phase is Permit ==> flow_step(f, EventV::Permit(false)).0.phase is Done && flow_step(
            f,
            EventV::Permit(false),
        ).1.outcome == Some(Outcome::TimedOut) && flow_step(f, EventV::Permit(false)).1.frames
            == seq![
            sse_error_bytes(
                "upstream_unavailable"@,
                "proxy timed out waiting for an upstream slot"@,
            ),
        ],
        f.phase is Slot ==> flow_step(f, EventV::Slot(false)).0.phase is Done && flow_step(
            f,
            EventV::Slot(false),
        ).1.outcome == Some(Outcome::TimedOut) && flow_step(f, EventV::Slot(false)).1.frames
            == seq![
            sse_error_bytes(
                "upstream_unavailable"@,
                "proxy timed out waiting for an upstream slot"@,
            ),
        ],
{
}

/// A stream that breaks off or stands still ends the exchange, and the
/// client is told which.
pub proof fn law_broken_streams_are_told(f: FlowV)
    requires
        f.phase is Relay,
    ensures
        ({
            let (g, m) = flow_step(f, EventV::Broken);
            &&& g.phase is Done
            &&& m.outcome == Some(Outcome::Broken)
            &&& m.frames == seq![
                told_error(f, "upstream_unavailable"@, "upstream stream interrupted"@),
            ]
        }),
        ({
            let (g, m) = flow_step(f, EventV::Stalled);
            &&& g.phase is Done
            &&& m.outcome == Some(Outcome::Stalled)
            &&& m.frames == seq![
                told_error(f, "upstream_unavailable"@, "upstream stream stalled"@),
            ]
        }),
{
}

/// A stream that ends is completed once its last frames have gone out: those
/// that end the message of a bridge stream, and none for a plain one.
pub proof fn law_ended_streams_complete(f: FlowV)
    requires
        f.phase is Relay,
    ensures
        ({
            let (g, m) = flow_step(f, EventV::End);
            let (h, n) = flow_step(g, EventV::Flushed);
            &&& m.frames == match f.translator {
                Some(t) => finish_output(t),
                None => Seq::empty(),
            }
            &&& m.outcome is None && m.effect == Effect::Nothing
            &&& h.phase is Done
            &&& n.frames.len() == 0
            &&& n.outcome == Some(Outcome::Completed)
        }),
{
}

/// A plain stream's client hears a heartbeat while it waits, as a comment,
/// and none once the request is on its way; heartbeats never move a plain
/// exchange.
pub proof fn law_heartbeats_are_for_those_who_wait(f: FlowV)
    requires
        f.translator is None,
    ensures
        flow_step(f, EventV::Heartbeat).0 == f,
        flow_step(f, EventV::Heartbeat).1.frames == if f.phase is Permit || f.phase is Slot {
            seq![encode_utf8(": heartbeat\n\n"@)]
        } else {
            Seq::empty()
        },
        flow_step(f, EventV::Heartbeat).1.effect == Effect::Nothing,
        flow_step(f, EventV::Heartbeat).1.outcome is None,
{
}

/// An event that does not belong to the phase changes nothing.
pub proof fn law_untimely_events_change_nothing(f: FlowV, e: EventV)
    requires
        match e {
            EventV::Permit(_) => !(f.phase is Permit),
            EventV::Slot(_) => !(f.phase is Slot),
            EventV::ConnectFailed => !(f.phase is Request),
            EventV::Status { .. } => !(f.phase is Request),
            EventV::Body { .. } => !(f.phase is RetryBody) && !(f.phase is ErrorBody),
            EventV::Chunk(_) => !(f.phase is Relay),
            EventV::Broken => !(f.phase is Relay),
            EventV::Stalled => !(f.phase is Relay),
            EventV::End => !(f.phase is Relay),
            EventV::Flushed => !(f.phase is Closing),
            EventV::Heartbeat => !(f.phase is Permit) && !(f.phase is Slot),
            EventV::Gone => f.phase is Done,
            EventV::Deadline => f.phase is Done,
        },
    ensures
        flow_step(f, e).0 == f,
        idle(flow_step(f, e).1),
{
}

/// An exchange starts with the wait for a permit, with the body and the
/// fallback it is given.
pub proof fn law_exchanges_start_with_the_wait(
    body: Seq<u8>,
    fallback: Option<Seq<u8>>,
)
    ensures
        flow_start(body, fallback, None) == (FlowV {
            phase: PhaseV::Permit,
            body,
            fallback,
            translator: None,
        }),
{
}

/// How an exchange ended is told in one word: its status where it has one.
pub proof fn law_outcomes_are_told(status: u16)
    ensures
        outcome_label(Outcome::Completed) == "200"@,
        outcome_label(Outcome::TimedOut) == "504"@,
        outcome_label(Outcome::Refused(status)) == decimal(status as nat),
        outcome_label(Outcome::Disconnected) == "disconnect"@,
        outcome_label(Outcome::Stalled) == "stall"@,
        outcome_label(Outcome::Broken) == "stream_error"@,
        outcome_label(Outcome::DeadlineExceeded) == "deadline"@,
{
}

/// A request answered in one piece waits like a stream does, is retried from
/// the start of the wait where upstream is busy and there is time, cools the
/// lane down as a stream would, and hands any other answer on.
pub proof fn law_buffered_exchanges(
    status: u16,
    retry_after: Option<String>,
    exhausted: bool,
    late: bool,
)
    requires
        backoff_of(opt_text(retry_after)) <= u64::MAX,
    ensures
        buffered_step(BufferedPhase::Permit, BufferedEvent::Permit(true)) == (
            BufferedPhase::Slot,
            Effect::Nothing,
        ),
        buffered_step(BufferedPhase::Slot, BufferedEvent::Slot(true)) == (
            BufferedPhase::Request,
            Effect::Nothing,
        ),
        buffered_step(BufferedPhase::Permit, BufferedEvent::Permit(false)).0 is TimedOut,
        buffered_step(BufferedPhase::Slot, BufferedEvent::Slot(false)).0 is TimedOut,
        buffered_step(BufferedPhase::Request, BufferedEvent::ConnectFailed) == (
            BufferedPhase::Permit,
            Effect::CoolConnect { secs: 5 },
        ),
        ({
            let answer = BufferedEvent::Status { status, retry_after, late };
            let (next, effect) = buffered_step(BufferedPhase::Request, answer);
            &&& effect == Effect::Nothing
            &&& late || !is_retryable(status) ==> next == (BufferedPhase::Relay { status })
            &&& !late && is_retryable(status) ==> buffered_step(
                next,
                BufferedEvent::Body { exhausted },
            ) == (
                BufferedPhase::Permit,
                if exhausted {
                    Effect::NoteExhausted
                } else {
                    Effect::CoolStatus { status, secs: backoff_of(opt_text(retry_after)) as u64 }
                },
            )
        }),
{
}

/// A bridge stream that has not spoken yet keeps what a plain one would have
/// been sent, so that a replay can begin with it: the greeting, heartbeats
/// and notices of a retry. Once it has spoken, it keeps nothing more.
pub proof fn law_bridge_streams_keep_what_they_hold_back(
    f: FlowV,
    t: TranslatorV,
    body: Seq<u8>,
    fallback: Option<Seq<u8>>,
    status: u16,
    text: Seq<char>,
    exhausted: bool,
)
    requires
        f.translator == Some(t),
        f.phase is Permit || f.phase is Slot,
    ensures
        ({
            let g = flow_step(f, EventV::Heartbeat).0;
            &&& g.phase == f.phase && g.body == f.body && g.fallback == f.fallback
            &&& g.translator == Some(
                if t.committed {
                    t
                } else {
                    pushed(t, encode_utf8(": heartbeat\n\n"@))
                },
            )
        }),
        ({
            let waiting = FlowV { phase: PhaseV::RetryBody { status, backoff_secs: 0 }, ..f };
            flow_step(waiting, EventV::Body { text, exhausted }).0.translator == Some(
                if t.committed {
                    t
                } else {
                    pushed(t, encode_utf8(": retrying\n\n"@))
                },
            )
        }),
        !t.committed ==> flow_start(body, fallback, Some(t)) == (FlowV {
            phase: PhaseV::Permit,
            body,
            fallback,
            translator: Some(pushed(t, encode_utf8(": connected\n\n"@))),
        }),
{
}

}
