//! A streamed exchange, step by step: the caller performs each action and
//! hands back what came of it.
//!
//! The stream commits to a 200 SSE response at once and emits comment lines
//! (ignored by every OpenAI SSE client) while it waits for a slot or rides
//! out 429/5xx, then pipes the upstream stream through. On the Messages
//! bridge the translator turns upstream chunks into Anthropic events and
//! drops the comment frames once the stream commits.
use crate::bridge::sse::{
    all_rendered, error_frame, finish_output, finished, pushed, StreamTranslator, TranslatorV,
};
use crate::buffers::{buffer_of, content, contents, share};
use crate::proxy::plan::opt_content;
use crate::proxy::replies::{sse_error, sse_error_bytes, stream_error_frame};
use crate::proxy::retry::{
    backoff_for, backoff_of, is_retryable, retryable, show_status, shown_status,
    CONNECT_BACKOFF_SECS,
};
use crate::text::{concat3, decimal, decimal_text, opt_text};
use bytes::Bytes;
use vstd::prelude::*;
use vstd::utf8::encode_utf8;

verus! {

broadcast use vstd::string::group_string_axioms;

/// Where a streamed exchange stands.
#[derive(Debug)]
pub enum Phase {
    /// Waiting for a permit of the model governor.
    Permit,
    /// Waiting for a rate-limit slot.
    Slot,
    /// The request is on its way upstream.
    Request,
    /// Reading the body of a retryable error.
    RetryBody { status: u16, backoff_secs: u64 },
    /// Reading the body of an error that ends the stream.
    ErrorBody { status: u16 },
    /// Reading the upstream's chunks.
    Relay,
    /// The upstream is done and the last frames are on their way.
    Closing,
    /// The exchange is over.
    Done,
}

/// The view of a [`Phase`].
pub enum PhaseV {
    Permit,
    Slot,
    Request,
    RetryBody { status: u16, backoff_secs: nat },
    ErrorBody { status: u16 },
    Relay,
    Closing,
    Done,
}

impl View for Phase {
    type V = PhaseV;

    open spec fn view(&self) -> PhaseV {
        match *self {
            Phase::Permit => PhaseV::Permit,
            Phase::Slot => PhaseV::Slot,
            Phase::Request => PhaseV::Request,
            Phase::RetryBody { status, backoff_secs } => PhaseV::RetryBody {
                status,
                backoff_secs: backoff_secs as nat,
            },
            Phase::ErrorBody { status } => PhaseV::ErrorBody { status },
            Phase::Relay => PhaseV::Relay,
            Phase::Closing => PhaseV::Closing,
            Phase::Done => PhaseV::Done,
        }
    }
}

/// What came of the last action.
#[derive(Debug)]
pub enum Event {
    /// A permit, or none before the deadline.
    Permit(bool),
    /// A slot, or none before the deadline.
    Slot(bool),
    /// Time to keep the client's connection alive.
    Heartbeat,
    /// The request could not be sent.
    ConnectFailed,
    /// The upstream's status line; `late` says that the wait deadline has
    /// passed.
    Status { status: u16, retry_after: Option<String>, late: bool },
    /// The body of an error; `exhausted` says that the model's workers are.
    Body { text: String, exhausted: bool },
    /// A chunk of the upstream's stream.
    Chunk(Bytes),
    /// The upstream's stream broke off.
    Broken,
    /// The upstream's stream stood still for too long.
    Stalled,
    /// The upstream's stream ended.
    End,
    /// The last frames have reached the client.
    Flushed,
    /// The client hung up.
    Gone,
    /// The request's deadline passed.
    Deadline,
}

/// The view of an [`Event`].
pub enum EventV {
    Permit(bool),
    Slot(bool),
    Heartbeat,
    ConnectFailed,
    Status { status: u16, retry_after: Option<Seq<char>>, late: bool },
    Body { text: Seq<char>, exhausted: bool },
    Chunk(Seq<u8>),
    Broken,
    Stalled,
    End,
    Flushed,
    Gone,
    Deadline,
}

impl View for Event {
    type V = EventV;

    open spec fn view(&self) -> EventV {
        match *self {
            Event::Permit(b) => EventV::Permit(b),
            Event::Slot(b) => EventV::Slot(b),
            Event::Heartbeat => EventV::Heartbeat,
            Event::ConnectFailed => EventV::ConnectFailed,
            Event::Status { status, retry_after, late } => EventV::Status {
                status,
                retry_after: opt_text(retry_after),
                late,
            },
            Event::Body { text, exhausted } => EventV::Body { text: text@, exhausted },
            Event::Chunk(b) => EventV::Chunk(content(b)),
            Event::Broken => EventV::Broken,
            Event::Stalled => EventV::Stalled,
            Event::End => EventV::End,
            Event::Flushed => EventV::Flushed,
            Event::Gone => EventV::Gone,
            Event::Deadline => EventV::Deadline,
        }
    }
}

/// What becomes of the slot's lane, the model and the retry.
#[derive(Clone, Copy, Debug, PartialEq, Eq, Structural)]
pub enum Effect {
    Nothing,
    /// The lane cools down after a failed connection.
    CoolConnect { secs: u64 },
    /// The lane cools down after a status.
    CoolStatus { status: u16, secs: u64 },
    /// The governor learns that the model's workers are exhausted.
    NoteExhausted,
    /// The model is remembered as one that rejects the usage report.
    RememberRejection,
}

/// How the exchange ended, for the request counter.
#[derive(Clone, Copy, Debug, PartialEq, Eq, Structural)]
pub enum Outcome {
    /// Ended as it should.
    Completed,
    /// No slot, or no answer worth passing on, before the deadline.
    TimedOut,
    /// The upstream refused with this status.
    Refused(u16),
    Disconnected,
    Stalled,
    Broken,
    DeadlineExceeded,
}

/// The status a request is counted under.
pub open spec fn outcome_label(o: Outcome) -> Seq<char> {
    match o {
        Outcome::Completed => "200"@,
        Outcome::TimedOut => "504"@,
        Outcome::Refused(status) => decimal(status as nat),
        Outcome::Disconnected => "disconnect"@,
        Outcome::Stalled => "stall"@,
        Outcome::Broken => "stream_error"@,
        Outcome::DeadlineExceeded => "deadline"@,
    }
}

/// The status a request is counted under.
pub fn label_of_outcome(o: Outcome) -> (r: String)
    ensures
        r@ == outcome_label(o),
{
    match o {
        Outcome::Completed => "200".to_owned(),
        Outcome::TimedOut => "504".to_owned(),
        Outcome::Refused(status) => decimal_text(status as u128),
        Outcome::Disconnected => "disconnect".to_owned(),
        Outcome::Stalled => "stall".to_owned(),
        Outcome::Broken => "stream_error".to_owned(),
        Outcome::DeadlineExceeded => "deadline".to_owned(),
    }
}

/// What to do next: the frames to send, what befalls lane and model, and,
/// where the exchange is over, how it ended.
#[derive(Debug)]
pub struct Move {
    pub frames: Vec<Bytes>,
    pub effect: Effect,
    pub outcome: Option<Outcome>,
}

/// The view of a [`Move`].
#[verifier::ext_equal]
pub struct MoveV {
    pub frames: Seq<Seq<u8>>,
    pub effect: Effect,
    pub outcome: Option<Outcome>,
}

impl View for Move {
    type V = MoveV;

    open spec fn view(&self) -> MoveV {
        MoveV { frames: contents(self.frames@), effect: self.effect, outcome: self.outcome }
    }
}

/// The view of a [`Flow`].
#[verifier::ext_equal]
pub struct FlowV {
    pub phase: PhaseV,
    /// The body that goes upstream.
    pub body: Seq<u8>,
    /// The untouched body, while the injected one may be rejected.
    pub fallback: Option<Seq<u8>>,
    /// The translator of a bridge stream.
    pub translator: Option<TranslatorV>,
}

/// The view of an optional translator.
pub open spec fn opt_translator(t: Option<StreamTranslator>) -> Option<TranslatorV> {
    match t {
        Some(t) => Some(t@),
        None => None,
    }
}

/// A move that sends frames and goes on.
pub open spec fn sending(frames: Seq<Seq<u8>>) -> MoveV {
    MoveV { frames, effect: Effect::Nothing, outcome: None }
}

/// A move without frames.
pub open spec fn acting(effect: Effect) -> MoveV {
    MoveV { frames: Seq::empty(), effect, outcome: None }
}

/// A move that ends the exchange.
pub open spec fn ending(frames: Seq<Seq<u8>>, outcome: Outcome) -> MoveV {
    MoveV { frames, effect: Effect::Nothing, outcome: Some(outcome) }
}

/// The exchange after a control frame: a bridge stream keeps it while it is
/// uncommitted and drops it afterwards, another stream sends it.
pub open spec fn after_control(f: FlowV, frame: Seq<u8>) -> FlowV {
    match f.translator {
        Some(t) => if t.committed {
            f
        } else {
            FlowV { translator: Some(pushed(t, frame)), ..f }
        },
        None => f,
    }
}

/// The frames a control frame gives the client.
pub open spec fn control_frames(f: FlowV, frame: Seq<u8>) -> Seq<Seq<u8>> {
    match f.translator {
        Some(_) => Seq::empty(),
        None => seq![frame],
    }
}

/// The in-stream error that ends a stream.
pub open spec fn last_frame(f: FlowV, code: Seq<char>, message: Seq<char>) -> Seq<Seq<u8>> {
    seq![
        if f.translator is Some && f.translator->0.committed {
            error_frame(code, message)
        } else {
            sse_error_bytes(code, message)
        },
    ]
}

/// The exchange in another phase.
pub open spec fn in_phase(f: FlowV, phase: PhaseV) -> FlowV {
    FlowV { phase, ..f }
}

/// The text of the frame that opens a stream.
pub open spec fn connected_frame() -> Seq<u8> {
    encode_utf8(": connected\n\n"@)
}

pub open spec fn heartbeat_frame() -> Seq<u8> {
    encode_utf8(": heartbeat\n\n"@)
}

pub open spec fn retrying_frame() -> Seq<u8> {
    encode_utf8(": retrying\n\n"@)
}

/// One step of a streamed exchange: the state after an event, and the move
/// it asks for. Events that a phase does not expect change nothing.
pub open spec fn flow_step(f: FlowV, e: EventV) -> (FlowV, MoveV) {
    let idle = (f, acting(Effect::Nothing));
    if f.phase is Done {
        idle
    } else {
        match e {
            EventV::Gone => (
                in_phase(f, PhaseV::Done),
                ending(Seq::empty(), Outcome::Disconnected),
            ),
            EventV::Deadline => (
                in_phase(f, PhaseV::Done),
                ending(
                    last_frame(f, "deadline_exceeded"@, "proxy request deadline exceeded"@),
                    Outcome::DeadlineExceeded,
                ),
            ),
            EventV::Heartbeat => if f.phase is Permit || f.phase is Slot {
                (
                    after_control(f, heartbeat_frame()),
                    sending(control_frames(f, heartbeat_frame())),
                )
            } else {
                idle
            },
            EventV::Permit(granted) => if !(f.phase is Permit) {
                idle
            } else if granted {
                (in_phase(f, PhaseV::Slot), acting(Effect::Nothing))
            } else {
                wait_expired(f)
            },
            EventV::Slot(granted) => if !(f.phase is Slot) {
                idle
            } else if granted {
                (in_phase(f, PhaseV::Request), acting(Effect::Nothing))
            } else {
                wait_expired(f)
            },
            EventV::ConnectFailed => if f.phase is Request {
                (
                    in_phase(f, PhaseV::Permit),
                    acting(Effect::CoolConnect { secs: CONNECT_BACKOFF_SECS }),
                )
            } else {
                idle
            },
            EventV::Status { status, retry_after, late } => if f.phase is Request {
                status_step(f, status, backoff_of(retry_after), late)
            } else {
                idle
            },
            EventV::Body { text, exhausted } => match f.phase {
                PhaseV::RetryBody { status, backoff_secs } => (
                    in_phase(after_control(f, retrying_frame()), PhaseV::Permit),
                    MoveV {
                        frames: control_frames(f, retrying_frame()),
                        effect: if exhausted {
                            Effect::NoteExhausted
                        } else {
                            Effect::CoolStatus { status, secs: backoff_secs as u64 }
                        },
                        outcome: None,
                    },
                ),
                PhaseV::ErrorBody { status } => (
                    in_phase(f, PhaseV::Done),
                    ending(
                        last_frame(
                            f,
                            "upstream_unavailable"@,
                            "upstream error "@ + shown_status(status) + ": "@ + text,
                        ),
                        Outcome::Refused(status),
                    ),
                ),
                _ => idle,
            },
            EventV::Chunk(bytes) => if f.phase is Relay {
                match f.translator {
                    Some(t) => (
                        FlowV { translator: Some(pushed(t, bytes)), ..f },
                        sending(all_rendered(pushed(t, bytes).run.out)),
                    ),
                    None => (f, sending(seq![bytes])),
                }
            } else {
                idle
            },
            EventV::Broken => if f.phase is Relay {
                (
                    in_phase(f, PhaseV::Done),
                    ending(
                        last_frame(f, "upstream_unavailable"@, "upstream stream interrupted"@),
                        Outcome::Broken,
                    ),
                )
            } else {
                idle
            },
            EventV::Stalled => if f.phase is Relay {
                (
                    in_phase(f, PhaseV::Done),
                    ending(
                        last_frame(f, "upstream_unavailable"@, "upstream stream stalled"@),
                        Outcome::Stalled,
                    ),
                )
            } else {
                idle
            },
            EventV::End => if f.phase is Relay {
                match f.translator {
                    Some(t) => (
                        FlowV { translator: Some(finished(t)), phase: PhaseV::Closing, ..f },
                        sending(finish_output(t)),
                    ),
                    None => (in_phase(f, PhaseV::Closing), acting(Effect::Nothing)),
                }
            } else {
                idle
            },
            EventV::Flushed => if f.phase is Closing {
                (in_phase(f, PhaseV::Done), ending(Seq::empty(), Outcome::Completed))
            } else {
                idle
            },
        }
    }
}

/// A wait that the deadline ended.
pub open spec fn wait_expired(f: FlowV) -> (FlowV, MoveV) {
    (
        in_phase(f, PhaseV::Done),
        ending(
            seq![
                sse_error_bytes(
                    "upstream_unavailable"@,
                    "proxy timed out waiting for an upstream slot"@,
                ),
            ],
            Outcome::TimedOut,
        ),
    )
}

/// What the upstream's status leads to: a 400 while the injected body is
/// out is retried with the untouched one; a retryable status is retried
/// until the deadline; a success is relayed; anything else ends the stream.
pub open spec fn status_step(f: FlowV, status: u16, backoff: nat, late: bool) -> (FlowV, MoveV) {
    if status == 400 && f.fallback is Some {
        (
            FlowV { phase: PhaseV::Permit, body: f.fallback->0, fallback: None, ..f },
            acting(Effect::RememberRejection),
        )
    } else if is_retryable(status) {
        if late {
            (
                in_phase(f, PhaseV::Done),
                ending(
                    seq![
                        sse_error_bytes(
                            "upstream_unavailable"@,
                            "upstream unavailable, retries exhausted"@,
                        ),
                    ],
                    Outcome::TimedOut,
                ),
            )
        } else {
            (
                in_phase(f, PhaseV::RetryBody { status, backoff_secs: backoff }),
                acting(Effect::Nothing),
            )
        }
    } else if !(200 <= status < 300) {
        (in_phase(f, PhaseV::ErrorBody { status }), acting(Effect::Nothing))
    } else {
        (in_phase(f, PhaseV::Relay), acting(Effect::Nothing))
    }
}

/// A streamed exchange.
pub struct Flow {
    phase: Phase,
    body: Bytes,
    fallback: Option<Bytes>,
    translator: Option<StreamTranslator>,
}

impl View for Flow {
    type V = FlowV;

    closed spec fn view(&self) -> FlowV {
        FlowV {
            phase: self.phase@,
            body: content(self.body),
            fallback: opt_content(self.fallback),
            translator: opt_translator(self.translator),
        }
    }
}

/// The exchange at its start, once the opening frame is out.
pub open spec fn flow_start(
    body: Seq<u8>,
    fallback: Option<Seq<u8>>,
    translator: Option<TranslatorV>,
) -> FlowV {
    after_control(
        FlowV { phase: PhaseV::Permit, body, fallback, translator },
        connected_frame(),
    )
}

fn frame_list(b: Bytes) -> (r: Vec<Bytes>)
    ensures
        contents(r@) == seq![content(b)],
{
    let mut out: Vec<Bytes> = Vec::new();
    out.push(b);
    assert(contents(out@) == seq![content(b)]);
    out
}

fn no_frames() -> (r: Vec<Bytes>)
    ensures
        contents(r@) == Seq::<Seq<u8>>::empty(),
{
    let out: Vec<Bytes> = Vec::new();
    assert(contents(out@) == Seq::<Seq<u8>>::empty());
    out
}

fn act(effect: Effect) -> (r: Move)
    ensures
        r@ == acting(effect),
{
    Move { frames: no_frames(), effect, outcome: None }
}

fn finish_with(frames: Vec<Bytes>, outcome: Outcome) -> (r: Move)
    ensures
        r@ == ending(contents(frames@), outcome),
{
    Move { frames, effect: Effect::Nothing, outcome: Some(outcome) }
}

impl Flow {
    /// The internal invariant.
    pub closed spec fn wf(self) -> bool {
        self.translator is Some ==> self.translator->0.wf()
    }

    /// Start a streamed exchange; the frames open the client's stream.
    pub fn start(
        body: Bytes,
        fallback: Option<Bytes>,
        translator: Option<StreamTranslator>,
    ) -> (r: (Flow, Vec<Bytes>))
        requires
            translator is Some ==> translator->0.wf(),
        ensures
            r.0.wf(),
            r.0@ == flow_start(content(body), opt_content(fallback), opt_translator(translator)),
            contents(r.1@) == if translator is Some {
                Seq::empty()
            } else {
                seq![connected_frame()]
            },
    {
        let mut flow = Flow { phase: Phase::Permit, body, fallback, translator };
        let frames = flow.control(": connected\n\n");
        (flow, frames)
    }

    /// Whether the exchange is over.
    pub fn is_done(&self) -> (r: bool)
        ensures
            r == (self@.phase is Done),
    {
        match self.phase {
            Phase::Done => true,
            _ => false,
        }
    }

    /// Where the exchange stands.
    pub fn phase(&self) -> (r: &Phase)
        ensures
            r@ == self@.phase,
    {
        &self.phase
    }

    /// The body that goes upstream.
    pub fn body(&self) -> (r: Bytes)
        ensures
            content(r) == self@.body,
    {
        share(&self.body)
    }

    fn control(&mut self, frame: &str) -> (r: Vec<Bytes>)
        requires
            old(self).wf(),
        ensures
            final(self).wf(),
            final(self)@ == after_control(old(self)@, encode_utf8(frame@)),
            contents(r@) == control_frames(old(self)@, encode_utf8(frame@)),
    {
        let bytes = buffer_of(frame.to_owned());
        match self.translator.take() {
            Some(mut t) => {
                // Uncommitted: control frames stay byte-exact for the
                // replay-on-finish passthrough contract. Committed: dropped.
                if !t.committed() {
                    let _ = t.push(&bytes);
                }
                self.translator = Some(t);
                no_frames()
            },
            None => frame_list(bytes),
        }
    }

    fn last(&self, code: &str, message: &str) -> (r: Vec<Bytes>)
        ensures
            contents(r@) == last_frame(self@, code@, message@),
    {
        frame_list(stream_error_frame(&self.translator, code, message))
    }

    fn expire(&mut self) -> (r: Move)
        requires
            old(self).wf(),
        ensures
            final(self).wf(),
            (final(self)@, r@) == wait_expired(old(self)@),
    {
        self.phase = Phase::Done;
        finish_with(
            frame_list(sse_error("proxy timed out waiting for an upstream slot")),
            Outcome::TimedOut,
        )
    }

    fn status(&mut self, status: u16, backoff_secs: u64, late: bool) -> (r: Move)
        requires
            old(self).wf(),
        ensures
            final(self).wf(),
            (final(self)@, r@) == status_step(old(self)@, status, backoff_secs as nat, late),
    {
        if status == 400 {
            match self.fallback.take() {
                // A 400 right after we injected stream_options usually means
                // this model rejects the field: remember that and retry
                // untouched.
                Some(body) => {
                    self.body = body;
                    self.phase = Phase::Permit;
                    return act(Effect::RememberRejection);
                },
                None => {},
            }
        }
        if retryable(status) {
            if late {
                self.phase = Phase::Done;
                finish_with(
                    frame_list(sse_error("upstream unavailable, retries exhausted")),
                    Outcome::TimedOut,
                )
            } else {
                self.phase = Phase::RetryBody { status, backoff_secs };
                act(Effect::Nothing)
            }
        } else if !(200 <= status && status < 300) {
            self.phase = Phase::ErrorBody { status };
            act(Effect::Nothing)
        } else {
            self.phase = Phase::Relay;
            act(Effect::Nothing)
        }
    }

    fn chunk(&mut self, bytes: Bytes) -> (r: Move)
        requires
            old(self).wf(),
            old(self)@.phase is Relay,
        ensures
            final(self).wf(),
            (final(self)@, r@) == flow_step(old(self)@, EventV::Chunk(content(bytes))),
    {
        // Bridge streams hand the client Anthropic events, never raw
        // upstream chunks; the chat path forwards the chunk untouched.
        let frames = match self.translator.take() {
            Some(mut t) => {
                let frames = t.push(&bytes);
                self.translator = Some(t);
                frames
            },
            None => frame_list(bytes),
        };
        Move { frames, effect: Effect::Nothing, outcome: None }
    }

    fn end(&mut self) -> (r: Move)
        requires
            old(self).wf(),
            old(self)@.phase is Relay,
        ensures
            final(self).wf(),
            (final(self)@, r@) == flow_step(old(self)@, EventV::End),
    {
        // Close the Anthropic stream; an uncommitted stream replays its
        // retained upstream bytes instead — the passthrough contract.
        self.phase = Phase::Closing;
        let frames = match self.translator.take() {
            Some(mut t) => {
                let frames = t.finish();
                self.translator = Some(t);
                frames
            },
            None => no_frames(),
        };
        Move { frames, effect: Effect::Nothing, outcome: None }
    }

    fn error_body(&mut self, text: &str, exhausted: bool) -> (r: Move)
        requires
            old(self).wf(),
            !(old(self)@.phase is Done),
        ensures
            final(self).wf(),
            (final(self)@, r@) == flow_step(
                old(self)@,
                EventV::Body { text: text@, exhausted },
            ),
    {
        match self.phase {
            Phase::RetryBody { status, backoff_secs } => {
                let frames = self.control(": retrying\n\n");
                self.phase = Phase::Permit;
                // Worker exhaustion is model-scoped: back off the model via
                // the governor, never the lane.
                let effect = if exhausted {
                    Effect::NoteExhausted
                } else {
                    Effect::CoolStatus { status, secs: backoff_secs }
                };
                Move { frames, effect, outcome: None }
            },
            Phase::ErrorBody { status } => {
                let mut message = concat3(
                    "upstream error ",
                    show_status(status).as_str(),
                    ": ",
                );
                message.append(text);
                let frames = self.last("upstream_unavailable", message.as_str());
                self.phase = Phase::Done;
                finish_with(frames, Outcome::Refused(status))
            },
            _ => act(Effect::Nothing),
        }
    }

    /// Take in an event; the move says what to do next.
    pub fn step(&mut self, event: Event) -> (r: Move)
        requires
            old(self).wf(),
        ensures
            final(self).wf(),
            (final(self)@, r@) == flow_step(old(self)@, event@),
    {
        match self.phase {
            Phase::Done => {
                return act(Effect::Nothing);
            },
            _ => {},
        }
        match event {
            Event::Gone => {
                self.phase = Phase::Done;
                finish_with(no_frames(), Outcome::Disconnected)
            },
            Event::Deadline => {
                let frames = self.last("deadline_exceeded", "proxy request deadline exceeded");
                self.phase = Phase::Done;
                finish_with(frames, Outcome::DeadlineExceeded)
            },
            Event::Heartbeat => {
                let waiting = match self.phase {
                    Phase::Permit => true,
                    Phase::Slot => true,
                    _ => false,
                };
                if waiting {
                    let frames = self.control(": heartbeat\n\n");
                    Move { frames, effect: Effect::Nothing, outcome: None }
                } else {
                    act(Effect::Nothing)
                }
            },
            Event::Permit(granted) => match self.phase {
                Phase::Permit => {
                    if granted {
                        self.phase = Phase::Slot;
                        act(Effect::Nothing)
                    } else {
                        self.expire()
                    }
                },
                _ => act(Effect::Nothing),
            },
            Event::Slot(granted) => match self.phase {
                Phase::Slot => {
                    if granted {
                        self.phase = Phase::Request;
                        act(Effect::Nothing)
                    } else {
                        self.expire()
                    }
                },
                _ => act(Effect::Nothing),
            },
            Event::ConnectFailed => match self.phase {
                Phase::Request => {
                    self.phase = Phase::Permit;
                    act(Effect::CoolConnect { secs: CONNECT_BACKOFF_SECS })
                },
                _ => act(Effect::Nothing),
            },
            Event::Status { status, retry_after, late } => match self.phase {
                Phase::Request => {
                    let backoff: u64 = match &retry_after {
                        Some(s) => backoff_for(Some(s.as_str())),
                        None => backoff_for(None),
                    };
                    self.status(status, backoff, late)
                },
                _ => act(Effect::Nothing),
            },
            Event::Body { text, exhausted } => self.error_body(text.as_str(), exhausted),
            Event::Chunk(bytes) => match self.phase {
                Phase::Relay => self.chunk(bytes),
                _ => act(Effect::Nothing),
            },
            Event::Broken => match self.phase {
                Phase::Relay => {
                    let frames = self.last(
                        "upstream_unavailable",
                        "upstream stream interrupted",
                    );
                    self.phase = Phase::Done;
                    finish_with(frames, Outcome::Broken)
                },
                _ => act(Effect::Nothing),
            },
            Event::Stalled => match self.phase {
                Phase::Relay => {
                    let frames = self.last("upstream_unavailable", "upstream stream stalled");
                    self.phase = Phase::Done;
                    finish_with(frames, Outcome::Stalled)
                },
                _ => act(Effect::Nothing),
            },
            Event::End => match self.phase {
                Phase::Relay => self.end(),
                _ => act(Effect::Nothing),
            },
            Event::Flushed => match self.phase {
                Phase::Closing => {
                    self.phase = Phase::Done;
                    finish_with(no_frames(), Outcome::Completed)
                },
                _ => act(Effect::Nothing),
            },
        }
    }
}

/// Every exchange is counted once: a step that ends it names how it ended,
/// no other step does, and after the end nothing happens any more.
pub proof fn law_exchange_ends_once(f: FlowV, e: EventV)
    ensures
        ({
            let (g, m) = flow_step(f, e);
            &&& m.outcome is Some <==> !(f.phase is Done) && g.phase is Done
            &&& f.phase is Done ==> g == f && m == acting(Effect::Nothing)
        }),
{
}

/// The untouched body is tried at most once: it is taken only by a 400, and
/// once taken it does not come back.
pub proof fn law_fallback_is_used_once(f: FlowV, e: EventV)
    ensures
        ({
            let (g, m) = flow_step(f, e);
            &&& f.fallback is None ==> g.fallback is None && g.body == f.body
            &&& m.effect == Effect::RememberRejection <==> f.fallback is Some && g.fallback is None
            &&& g.fallback is None && f.fallback is Some ==> g.body == f.fallback->0
        }),
{
}

/// A request is sent only after both admissions, on every try: the phase that
/// sends is reached only by a slot, and the wait for a slot only by a permit.
pub proof fn law_stream_passes_both_admissions(f: FlowV, e: EventV)
    ensures
        flow_step(f, e).0.phase is Request && !(f.phase is Request) ==> f.phase is Slot && e
            == EventV::Slot(true),
        flow_step(f, e).0.phase is Slot && !(f.phase is Slot) ==> f.phase is Permit && e
            == EventV::Permit(true),
{
}

/// Worker exhaustion never cools a lane down.
pub proof fn law_stream_exhaustion_spares_the_lane(f: FlowV, text: Seq<char>)
    ensures
        !(flow_step(f, EventV::Body { text, exhausted: true }).1.effect is CoolStatus),
        !(flow_step(f, EventV::Body { text, exhausted: true }).1.effect is CoolConnect),
{
}

/// Upstream bytes reach the client of a bridge stream only as rendered
/// events: what a chunk sends is what the translator emits for it.
pub proof fn law_bridge_chunks_are_translated(f: FlowV, bytes: Seq<u8>)
    requires
        f.translator is Some,
        f.phase is Relay,
    ensures
        flow_step(f, EventV::Chunk(bytes)).1.frames == all_rendered(
            pushed(f.translator->0, bytes).run.out,
        ),
{
}

/// Control frames never reach the client of a bridge stream while it waits.
pub proof fn law_bridge_heartbeats_are_silent(f: FlowV)
    requires
        f.translator is Some,
    ensures
        flow_step(f, EventV::Heartbeat).1.frames.len() == 0,
{
}

}
