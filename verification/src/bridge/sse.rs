//! Streaming half of the Anthropic Messages bridge.
//!
//! `StreamTranslator` turns upstream OpenAI chat-completions SSE bytes
//! into the Anthropic event sequence: `message_start`, one
//! `content_block_start` / `content_block_delta` / `content_block_stop`
//! group per text, thinking, or tool block, then `message_delta`
//! (stop reason + usage) and `message_stop`. It is a byte-exact
//! transducer over `Bytes`: arbitrary chunk boundaries (mid-line,
//! mid-JSON) and upstream comment lines never leak through, and the
//! retained state is bounded — a stream that never commits to an
//! Anthropic event replays its upstream bytes untouched instead.
use crate::bridge::response::{direct_caller, usage_json};
use crate::bridge::search::text_or_null;
use crate::buffers::{buffer_of, content, contents, joined_bytes, share, slice_of, text_in};
use crate::codec::{json_of_text, json_text, parse, print};
use crate::json::{empty_object, items_view, lemma_items_view, Json, JsonV};
use crate::text::{
    concat, concat3, decimal, decimal_text, is_empty, join, joined, lines, lines_of, non_empty,
    one_of, opt_text, or_empty, owned_or_empty, same, starts_with, texts, trim, trimmed,
    unless_empty,
};
use bytes::Bytes;
use vstd::prelude::*;
use vstd::utf8::{decode_utf8, encode_utf8, valid_utf8};

verus! {

broadcast use vstd::string::group_string_axioms;

/// Retention cap for a stream the translator has not committed to
/// Anthropic events: below the first event, upstream bytes are replayed
/// byte-exact if the stream never produces one. Once committed, retention
/// stops and the state stays bounded.
pub const RETAIN_CAP: usize = 1_048_576;

/// Which block kind is open at a given content index.
#[derive(Clone, Copy, Debug, PartialEq, Eq, Structural)]
pub enum OpenKind {
    Text,
    Thinking,
    Tool,
}

/// Request-side metadata the translator needs to render tool blocks
/// exactly the way the buffered transform does.
#[derive(Debug)]
pub struct StreamMeta {
    /// Tool names offered client-side: their `tool_use` blocks echo
    /// `caller: {"type": "direct"}`.
    pub client_tool_names: Vec<String>,
    /// The client's request model, echoed in `message_start`.
    pub model: String,
}

/// The view of a [`StreamMeta`].
#[verifier::ext_equal]
pub struct StreamMetaV {
    pub client_tool_names: Seq<Seq<char>>,
    pub model: Seq<char>,
}

impl View for StreamMeta {
    type V = StreamMetaV;

    open spec fn view(&self) -> StreamMetaV {
        StreamMetaV { client_tool_names: texts(self.client_tool_names@), model: self.model@ }
    }
}

/// An Anthropic stream event.
#[verifier::ext_equal]
pub enum EventV {
    MessageStart { model: Seq<char> },
    BlockStart { index: nat, block: JsonV },
    BlockDelta { index: nat, kind: Seq<char>, field: Seq<char>, text: Seq<char> },
    BlockStop { index: nat },
    MessageDelta { stop_reason: Option<Seq<char>>, input: u64, output: u64 },
    MessageStop,
}

/// The name of an event.
pub open spec fn event_name(e: EventV) -> Seq<char> {
    match e {
        EventV::MessageStart { .. } => "message_start"@,
        EventV::BlockStart { .. } => "content_block_start"@,
        EventV::BlockDelta { .. } => "content_block_delta"@,
        EventV::BlockStop { .. } => "content_block_stop"@,
        EventV::MessageDelta { .. } => "message_delta"@,
        EventV::MessageStop => "message_stop"@,
    }
}

/// The data of an event.
pub open spec fn event_data(e: EventV) -> JsonV {
    let named = empty_object().with("type"@, JsonV::Str(event_name(e)));
    match e {
        EventV::MessageStart { model } => named.with(
            "message"@,
            empty_object().with("id"@, JsonV::Str("msg_stream"@)).with(
                "type"@,
                JsonV::Str("message"@),
            ).with("role"@, JsonV::Str("assistant"@)).with("model"@, JsonV::Str(model)).with(
                "content"@,
                JsonV::Array(Seq::empty()),
            ).with("stop_reason"@, JsonV::Null).with("stop_sequence"@, JsonV::Null).with(
                "usage"@,
                usage_json(0, 0),
            ),
        ),
        EventV::BlockStart { index, block } => named.with("index"@, JsonV::Int(index as int)).with(
            "content_block"@,
            block,
        ),
        EventV::BlockDelta { index, kind, field, text } => named.with(
            "index"@,
            JsonV::Int(index as int),
        ).with(
            "delta"@,
            empty_object().with("type"@, JsonV::Str(kind)).with(field, JsonV::Str(text)),
        ),
        EventV::BlockStop { index } => named.with("index"@, JsonV::Int(index as int)),
        EventV::MessageDelta { stop_reason, input, output } => named.with(
            "delta"@,
            empty_object().with("stop_reason"@, text_or_null(stop_reason)).with(
                "stop_sequence"@,
                JsonV::Null,
            ),
        ).with("usage"@, usage_json(input as int, output as int)),
        EventV::MessageStop => named,
    }
}

/// The bytes of an event with a name and data.
pub open spec fn frame(name: Seq<char>, data: JsonV) -> Seq<u8> {
    encode_utf8("event: "@ + name + "\ndata: "@ + json_text(data) + "\n\n"@)
}

/// The bytes of an event.
pub open spec fn rendered(e: EventV) -> Seq<u8> {
    frame(event_name(e), event_data(e))
}

/// The bytes of events.
pub open spec fn all_rendered(events: Seq<EventV>) -> Seq<Seq<u8>> {
    events.map_values(|e: EventV| rendered(e))
}

/// Whether a blank line ends at `j + 1`: two newlines in a row.
pub open spec fn blank_at(buf: Seq<u8>, j: int) -> bool {
    0 <= j && j + 1 < buf.len() && buf[j] == 10 && buf[j + 1] == 10
}

/// Where the next complete event ends: the place of the second of two
/// newlines in a row; none where no event is complete.
pub open spec fn event_end(buf: Seq<u8>, from: int) -> Option<int>
    decreases buf.len() - from,
{
    if from < 0 || from + 1 >= buf.len() {
        None
    } else if blank_at(buf, from) {
        Some(from + 1)
    } else {
        event_end(buf, from + 1)
    }
}

/// The first end found is an end, and lies in the buffer.
pub proof fn lemma_event_end(buf: Seq<u8>, from: int)
    requires
        0 <= from,
    ensures
        match event_end(buf, from) {
            Some(e) => from < e < buf.len() && blank_at(buf, e - 1) && (forall|j: int|
                from <= j < e - 1 ==> !#[trigger] blank_at(buf, j)),
            None => forall|j: int| from <= j ==> !#[trigger] blank_at(buf, j),
        },
    decreases buf.len() - from,
{
    if from + 1 < buf.len() && !blank_at(buf, from) {
        lemma_event_end(buf, from + 1);
    }
}

/// The complete events in a buffer, terminators included.
pub open spec fn complete_events(buf: Seq<u8>) -> Seq<Seq<u8>>
    decreases buf.len(),
{
    match event_end(buf, 0) {
        None => Seq::empty(),
        Some(e) => {
            proof {
                lemma_event_end(buf, 0);
            }
            seq![buf.take(e + 1)] + complete_events(buf.skip(e + 1))
        },
    }
}

/// What follows the last complete event in a buffer.
pub open spec fn incomplete_rest(buf: Seq<u8>) -> Seq<u8>
    decreases buf.len(),
{
    match event_end(buf, 0) {
        None => buf,
        Some(e) => {
            proof {
                lemma_event_end(buf, 0);
            }
            incomplete_rest(buf.skip(e + 1))
        },
    }
}

/// The `data:` fields among lines, prefix removed.
pub open spec fn data_fields(ls: Seq<Seq<char>>) -> Seq<Seq<char>>
    decreases ls.len(),
{
    if ls.len() == 0 {
        Seq::empty()
    } else {
        let head = data_fields(ls.drop_last());
        if "data:"@.is_prefix_of(ls.last()) {
            head.push(ls.last().skip("data:"@.len() as int))
        } else {
            head
        }
    }
}

/// The data of an upstream event.
pub open spec fn event_payload(event: Seq<char>) -> Seq<char> {
    trimmed(joined(data_fields(lines_of(event)), "\n"@))
}

/// The value an upstream event carries; comments, control frames, bytes
/// that are no text and data that is no JSON carry none.
pub open spec fn event_value(event: Seq<u8>) -> Option<JsonV> {
    if !valid_utf8(event) {
        None
    } else {
        let data = event_payload(decode_utf8(event));
        if data.len() == 0 {
            None
        } else {
            json_of_text(data)
        }
    }
}

/// The translator's state once bytes are cut into events, and the events it
/// has emitted.
#[verifier::ext_equal]
pub struct RunV {
    pub started: bool,
    pub finish_reason: Option<Seq<char>>,
    pub input_tokens: u64,
    pub output_tokens: u64,
    /// The kinds of the open blocks, by content index.
    pub open: Seq<OpenKind>,
    /// The content index of each upstream `tool_calls` index seen.
    pub slots: Map<u64, nat>,
    pub out: Seq<EventV>,
}

/// A token count of an upstream `usage`, or the one seen before.
pub open spec fn observed(usage: JsonV, key: Seq<char>, before: u64) -> u64 {
    match usage.get_u64(key) {
        Some(n) => n,
        None => before,
    }
}

pub open spec fn observe_usage(run: RunV, v: JsonV) -> RunV {
    match v.get("usage"@) {
        Some(usage) => RunV {
            input_tokens: observed(usage, "prompt_tokens"@, run.input_tokens),
            output_tokens: observed(usage, "completion_tokens"@, run.output_tokens),
            ..run
        },
        None => run,
    }
}

/// The model named in `message_start`: the requested one, else the
/// upstream's, else none.
pub open spec fn start_model(v: JsonV, meta: StreamMetaV) -> Seq<char> {
    if meta.model.len() > 0 {
        meta.model
    } else {
        or_empty(v.get_str("model"@))
    }
}

pub open spec fn emit(run: RunV, e: EventV) -> RunV {
    RunV { out: run.out.push(e), ..run }
}

/// `message_start`, once.
pub open spec fn begin(run: RunV, v: JsonV, meta: StreamMetaV) -> RunV {
    if run.started {
        run
    } else {
        emit(
            RunV { started: true, ..run },
            EventV::MessageStart { model: start_model(v, meta) },
        )
    }
}

/// A new block at the next content index.
pub open spec fn open_block(run: RunV, kind: OpenKind, block: JsonV) -> RunV {
    emit(
        RunV { open: run.open.push(kind), ..run },
        EventV::BlockStart { index: run.open.len(), block },
    )
}

/// The last open block where it is of the given kind, else a new one.
pub open spec fn reuse_block(run: RunV, kind: OpenKind, block: JsonV) -> RunV {
    if run.open.len() > 0 && run.open.last() == kind {
        run
    } else {
        open_block(run, kind, block)
    }
}

pub open spec fn fresh_text() -> JsonV {
    empty_object().with("type"@, JsonV::Str("text"@)).with("text"@, JsonV::Str(Seq::empty()))
}

pub open spec fn fresh_thinking() -> JsonV {
    empty_object().with("type"@, JsonV::Str("thinking"@)).with(
        "thinking"@,
        JsonV::Str(Seq::empty()),
    ).with("signature"@, JsonV::Null)
}

/// A text delta in the last block, which is opened where needed.
pub open spec fn text_delta(run: RunV, text: Seq<char>) -> RunV {
    let r = reuse_block(run, OpenKind::Text, fresh_text());
    emit(
        r,
        EventV::BlockDelta {
            index: (r.open.len() - 1) as nat,
            kind: "text_delta"@,
            field: "text"@,
            text,
        },
    )
}

/// A thinking delta in the last block, which is opened where needed.
pub open spec fn thinking_delta(run: RunV, text: Seq<char>) -> RunV {
    let r = reuse_block(run, OpenKind::Thinking, fresh_thinking());
    emit(
        r,
        EventV::BlockDelta {
            index: (r.open.len() - 1) as nat,
            kind: "thinking_delta"@,
            field: "thinking"@,
            text,
        },
    )
}

/// The upstream index of a call; a call that names none is the first.
pub open spec fn call_index(call: JsonV) -> u64 {
    match call.get_u64("index"@) {
        Some(i) => i,
        None => 0,
    }
}

/// The block of a tool call on first sight.
pub open spec fn fresh_tool(call: JsonV, function: JsonV, meta: StreamMetaV) -> JsonV {
    let id = match call.get_str("id"@) {
        Some(id) => id,
        None => "toolu_stream_"@ + decimal(call_index(call) as nat),
    };
    let name = or_empty(function.get_str("name"@));
    let block = empty_object().with("type"@, JsonV::Str("tool_use"@)).with(
        "id"@,
        JsonV::Str(id),
    ).with("name"@, JsonV::Str(name)).with("input"@, empty_object());
    if meta.client_tool_names.contains(name) {
        block.with("caller"@, direct_caller())
    } else {
        block
    }
}

/// The block of a call, opened on first sight.
pub open spec fn tool_block(run: RunV, call: JsonV, function: JsonV, meta: StreamMetaV) -> RunV {
    let i = call_index(call);
    if run.slots.contains_key(i) {
        run
    } else {
        let r = open_block(run, OpenKind::Tool, fresh_tool(call, function, meta));
        RunV { slots: r.slots.insert(i, run.open.len()), ..r }
    }
}

/// One entry of `tool_calls`: its block, and a delta for arguments that are
/// not empty.
pub open spec fn call_step(run: RunV, call: JsonV, meta: StreamMetaV) -> RunV {
    match call.get("function"@) {
        None => run,
        Some(function) => {
            let r = tool_block(run, call, function, meta);
            match non_empty(function.get_str("arguments"@)) {
                Some(arguments) => emit(
                    r,
                    EventV::BlockDelta {
                        index: r.slots[call_index(call)],
                        kind: "input_json_delta"@,
                        field: "partial_json"@,
                        text: arguments,
                    },
                ),
                None => r,
            }
        },
    }
}

pub open spec fn calls_run(run: RunV, calls: Seq<JsonV>, meta: StreamMetaV) -> RunV
    decreases calls.len(),
{
    if calls.len() == 0 {
        run
    } else {
        call_step(calls_run(run, calls.drop_last(), meta), calls.last(), meta)
    }
}

/// The stops of `n` open blocks, the last one first.
pub open spec fn stops(n: nat) -> Seq<EventV>
    decreases n,
{
    if n == 0 {
        Seq::empty()
    } else {
        seq![EventV::BlockStop { index: (n - 1) as nat }] + stops((n - 1) as nat)
    }
}

/// All open blocks closed.
pub open spec fn close_all(run: RunV) -> RunV {
    RunV { open: Seq::empty(), out: run.out + stops(run.open.len()), ..run }
}

/// Upstream finish reasons in the Anthropic stop vocabulary.
pub open spec fn stop_vocabulary(reason: Seq<char>) -> Seq<char> {
    if reason == "length"@ {
        "max_tokens"@
    } else if reason == "tool_calls"@ {
        "tool_use"@
    } else if reason == "stop"@ {
        "end_turn"@
    } else {
        reason
    }
}

/// A text member of a choice's delta that is not empty.
pub open spec fn delta_text(choice: JsonV, key: Seq<char>) -> Option<Seq<char>> {
    match choice.get("delta"@) {
        Some(delta) => non_empty(delta.get_str(key)),
        None => None,
    }
}

/// The tool calls of a choice's delta.
pub open spec fn delta_calls(choice: JsonV) -> Seq<JsonV> {
    match choice.get("delta"@) {
        Some(delta) => delta.list("tool_calls"@),
        None => Seq::empty(),
    }
}

/// One choice of an upstream chunk: text, then thinking, then tool calls,
/// then the finish, which closes all blocks.
pub open spec fn choice_step(run: RunV, choice: JsonV, meta: StreamMetaV) -> RunV {
    let said = match delta_text(choice, "content"@) {
        Some(t) => text_delta(run, t),
        None => run,
    };
    let thought = match delta_text(choice, "reasoning_content"@) {
        Some(t) => thinking_delta(said, t),
        None => said,
    };
    let called = calls_run(thought, delta_calls(choice), meta);
    match non_empty(choice.get_str("finish_reason"@)) {
        Some(reason) => close_all(
            RunV { finish_reason: Some(stop_vocabulary(reason)), ..called },
        ),
        None => called,
    }
}

pub open spec fn choices_run(run: RunV, choices: Seq<JsonV>, meta: StreamMetaV) -> RunV
    decreases choices.len(),
{
    if choices.len() == 0 {
        run
    } else {
        choice_step(choices_run(run, choices.drop_last(), meta), choices.last(), meta)
    }
}

/// One upstream chunk: its usage is observed whenever it lands; the first
/// one with a choice opens the message.
pub open spec fn chunk_step(run: RunV, v: JsonV, meta: StreamMetaV) -> RunV {
    let seen = observe_usage(run, v);
    let choices = v.list("choices"@);
    if choices.len() == 0 {
        seen
    } else {
        choices_run(begin(seen, v, meta), choices, meta)
    }
}

/// One upstream event.
pub open spec fn event_step(run: RunV, event: Seq<u8>, meta: StreamMetaV) -> RunV {
    match event_value(event) {
        Some(v) => chunk_step(run, v, meta),
        None => run,
    }
}

pub open spec fn events_run(run: RunV, events: Seq<Seq<u8>>, meta: StreamMetaV) -> RunV
    decreases events.len(),
{
    if events.len() == 0 {
        run
    } else {
        event_step(events_run(run, events.drop_last(), meta), events.last(), meta)
    }
}

/// The state of a translator.
#[verifier::ext_equal]
pub struct TranslatorV {
    /// The upstream chunks kept for replay.
    pub retained: Seq<Seq<u8>>,
    /// The bytes after the last complete event.
    pub pending: Seq<u8>,
    pub committed: bool,
    pub finishing: bool,
    pub run: RunV,
    pub meta: StreamMetaV,
}

/// A run that has emitted nothing yet since `run`.
pub open spec fn quiet(run: RunV) -> RunV {
    RunV { out: Seq::empty(), ..run }
}

/// The state before any byte.
pub open spec fn fresh_run() -> RunV {
    RunV {
        started: false,
        finish_reason: None,
        input_tokens: 0,
        output_tokens: 0,
        open: Seq::empty(),
        slots: Map::empty(),
        out: Seq::empty(),
    }
}

pub open spec fn fresh_translator(meta: StreamMetaV) -> TranslatorV {
    TranslatorV {
        retained: Seq::empty(),
        pending: Seq::empty(),
        committed: false,
        finishing: false,
        run: fresh_run(),
        meta,
    }
}

/// The chunks kept for replay with one more, unless they reach the cap.
pub open spec fn retained_with(retained: Seq<Seq<u8>>, chunk: Seq<u8>) -> Seq<Seq<u8>> {
    if joined_bytes(retained).len() < RETAIN_CAP {
        retained.push(chunk)
    } else {
        retained
    }
}

/// The translator after one more chunk; `run.out` holds the events that
/// this chunk yielded.
pub open spec fn pushed(t: TranslatorV, chunk: Seq<u8>) -> TranslatorV {
    let buf = t.pending + chunk;
    let run = events_run(quiet(t.run), complete_events(buf), t.meta);
    let committed = t.committed || run.started;
    TranslatorV {
        retained: if committed {
            Seq::empty()
        } else {
            retained_with(t.retained, chunk)
        },
        pending: incomplete_rest(buf),
        committed,
        run,
        ..t
    }
}

/// The translator after the end of the stream: one that never committed
/// gives back the retained chunks, another closes its blocks and ends the
/// message, and one that has ended already does nothing.
pub open spec fn finished(t: TranslatorV) -> TranslatorV {
    if !t.committed {
        TranslatorV { retained: Seq::empty(), committed: true, run: quiet(t.run), ..t }
    } else if t.finishing {
        TranslatorV { run: quiet(t.run), ..t }
    } else {
        let closed = close_all(quiet(t.run));
        let ended = if t.run.started {
            emit(
                emit(
                    closed,
                    EventV::MessageDelta {
                        stop_reason: closed.finish_reason,
                        input: closed.input_tokens,
                        output: closed.output_tokens,
                    },
                ),
                EventV::MessageStop,
            )
        } else {
            closed
        };
        TranslatorV { finishing: true, run: ended, ..t }
    }
}

/// What the end of the stream yields.
pub open spec fn finish_output(t: TranslatorV) -> Seq<Seq<u8>> {
    if !t.committed {
        t.retained
    } else {
        all_rendered(finished(t).run.out)
    }
}

/// The in-stream error event.
pub open spec fn error_frame(code: Seq<char>, message: Seq<char>) -> Seq<u8> {
    frame(
        "error"@,
        empty_object().with("type"@, JsonV::Str("error"@)).with(
            "error"@,
            empty_object().with("type"@, JsonV::Str("upstream_error"@)).with(
                "code"@,
                JsonV::Str(code),
            ).with("message"@, JsonV::Str(message)),
        ),
    )
}


/// An Anthropic stream event, before it is rendered.
enum Event {
    MessageStart { model: String },
    BlockStart { index: usize, block: Json },
    BlockDelta { index: usize, kind: &'static str, field: &'static str, text: String },
    BlockStop { index: usize },
    MessageDelta { stop_reason: Option<String>, input: u64, output: u64 },
    MessageStop,
}

impl View for Event {
    type V = EventV;

    closed spec fn view(&self) -> EventV {
        match *self {
            Event::MessageStart { model } => EventV::MessageStart { model: model@ },
            Event::BlockStart { index, block } => EventV::BlockStart {
                index: index as nat,
                block: block@,
            },
            Event::BlockDelta { index, kind, field, text } => EventV::BlockDelta {
                index: index as nat,
                kind: kind@,
                field: field@,
                text: text@,
            },
            Event::BlockStop { index } => EventV::BlockStop { index: index as nat },
            Event::MessageDelta { stop_reason, input, output } => EventV::MessageDelta {
                stop_reason: opt_text(stop_reason),
                input,
                output,
            },
            Event::MessageStop => EventV::MessageStop,
        }
    }
}

spec fn events_view(events: Seq<Event>) -> Seq<EventV> {
    events.map_values(|e: Event| e@)
}

/// The bytes of an event with a name and data.
fn frame_of(name: &str, data: &Json) -> (r: Bytes)
    ensures
        content(r) == frame(name@, data@),
{
    let mut text = concat3("event: ", name, "\ndata: ");
    text.append(print(data).as_str());
    text.append("\n\n");
    buffer_of(text)
}

/// The name of an event.
fn name_of(e: &Event) -> (r: &'static str)
    ensures
        r@ == event_name(e@),
{
    match e {
        Event::MessageStart { .. } => "message_start",
        Event::BlockStart { .. } => "content_block_start",
        Event::BlockDelta { .. } => "content_block_delta",
        Event::BlockStop { .. } => "content_block_stop",
        Event::MessageDelta { .. } => "message_delta",
        Event::MessageStop => "message_stop",
    }
}

/// Token counts in the Anthropic shape.
fn usage_of(input: u64, output: u64) -> (r: Json)
    ensures
        r@ == usage_json(input as int, output as int),
{
    Json::object().with("input_tokens", Json::uint(input)).with(
        "output_tokens",
        Json::uint(output),
    )
}

/// The data of an event.
fn data_of(e: &Event) -> (r: Json)
    ensures
        r@ == event_data(e@),
{
    let named = Json::object().with("type", Json::text(name_of(e)));
    match e {
        Event::MessageStart { model } => {
            let none: Vec<Json> = Vec::new();
            assert(items_view(none@) == Seq::<JsonV>::empty());
            named.with(
                "message",
                Json::object().with("id", Json::text("msg_stream")).with(
                    "type",
                    Json::text("message"),
                ).with("role", Json::text("assistant")).with(
                    "model",
                    Json::text(model.as_str()),
                ).with("content", Json::Array(none)).with("stop_reason", Json::Null).with(
                    "stop_sequence",
                    Json::Null,
                ).with("usage", usage_of(0, 0)),
            )
        },
        Event::BlockStart { index, block } => named.with("index", Json::uint(*index as u64)).with(
            "content_block",
            block.clone(),
        ),
        Event::BlockDelta { index, kind, field, text } => named.with(
            "index",
            Json::uint(*index as u64),
        ).with(
            "delta",
            Json::object().with("type", Json::text(kind)).with(field, Json::text(text.as_str())),
        ),
        Event::BlockStop { index } => named.with("index", Json::uint(*index as u64)),
        Event::MessageDelta { stop_reason, input, output } => {
            let reason = match stop_reason {
                Some(r) => Json::text(r.as_str()),
                None => Json::Null,
            };
            named.with(
                "delta",
                Json::object().with("stop_reason", reason).with("stop_sequence", Json::Null),
            ).with("usage", usage_of(*input, *output))
        },
        Event::MessageStop => named,
    }
}

/// The bytes of events.
fn render(events: &Vec<Event>) -> (r: Vec<Bytes>)
    ensures
        contents(r@) == all_rendered(events_view(events@)),
{
    let mut out: Vec<Bytes> = Vec::new();
    let ghost all = all_rendered(events_view(events@));
    let mut i: usize = 0;
    assert(contents(out@) == all.take(0));
    while i < events.len()
        invariant
            i <= events@.len(),
            all == all_rendered(events_view(events@)),
            contents(out@) == all.take(i as int),
        decreases events@.len() - i,
    {
        let bytes = frame_of(name_of(&events[i]), &data_of(&events[i]));
        proof {
            assert(content(bytes) == all[i as int]);
            assert(contents(out@.push(bytes)) == contents(out@).push(content(bytes)));
            assert(all.take(i + 1) == all.take(i as int).push(all[i as int]));
        }
        out.push(bytes);
        i = i + 1;
    }
    assert(all.take(all.len() as int) == all);
    out
}

/// The map that slot entries make.
spec fn slots_view(slots: Seq<(u64, usize)>) -> Map<u64, nat>
    decreases slots.len(),
{
    if slots.len() == 0 {
        Map::empty()
    } else {
        slots_view(slots.drop_last()).insert(slots.last().0, slots.last().1 as nat)
    }
}

/// The translator's state once bytes are cut into events.
struct Run {
    started: bool,
    finish_reason: Option<String>,
    input_tokens: u64,
    output_tokens: u64,
    open: Vec<OpenKind>,
    slots: Vec<(u64, usize)>,
    out: Vec<Event>,
}

impl View for Run {
    type V = RunV;

    closed spec fn view(&self) -> RunV {
        RunV {
            started: self.started,
            finish_reason: opt_text(self.finish_reason),
            input_tokens: self.input_tokens,
            output_tokens: self.output_tokens,
            open: self.open@,
            slots: slots_view(self.slots@),
            out: events_view(self.out@),
        }
    }
}

impl Run {
    fn new() -> (r: Self)
        ensures
            r@ == fresh_run(),
    {
        let r = Run {
            started: false,
            finish_reason: None,
            input_tokens: 0,
            output_tokens: 0,
            open: Vec::new(),
            slots: Vec::new(),
            out: Vec::new(),
        };
        assert(events_view(r.out@) == Seq::<EventV>::empty());
        r
    }

    /// Forget the events emitted so far.
    fn hush(&mut self)
        ensures
            final(self)@ == quiet(old(self)@),
    {
        self.out = Vec::new();
        assert(events_view(self.out@) == Seq::<EventV>::empty());
    }

    fn emit(&mut self, e: Event)
        ensures
            final(self)@ == emit(old(self)@, e@),
    {
        let ghost before = self.out@;
        self.out.push(e);
        assert(events_view(self.out@) == events_view(before).push(e@));
    }

    fn observe_usage(&mut self, v: &Json)
        ensures
            final(self)@ == observe_usage(old(self)@, v@),
    {
        match v.get("usage") {
            Some(usage) => {
                match usage.get_u64("prompt_tokens") {
                    Some(n) => {
                        self.input_tokens = n;
                    },
                    None => {},
                }
                match usage.get_u64("completion_tokens") {
                    Some(n) => {
                        self.output_tokens = n;
                    },
                    None => {},
                }
            },
            None => {},
        }
    }

    /// `message_start`, emitted once on the first upstream event.
    fn begin(&mut self, v: &Json, meta: &StreamMeta)
        ensures
            final(self)@ == begin(old(self)@, v@, meta@),
    {
        if !self.started {
            self.started = true;
            let model = if is_empty(meta.model.as_str()) {
                owned_or_empty(v.get_str("model"))
            } else {
                meta.model.clone()
            };
            self.emit(Event::MessageStart { model });
        }
    }

    fn open_block(&mut self, kind: OpenKind, block: Json)
        ensures
            final(self)@ == open_block(old(self)@, kind, block@),
    {
        let index: usize = self.open.len();
        self.open.push(kind);
        self.emit(Event::BlockStart { index, block });
    }

    /// Whether the last open block is of the given kind.
    fn last_is(&self, kind: OpenKind) -> (r: bool)
        ensures
            r == (self@.open.len() > 0 && self@.open.last() == kind),
    {
        let n: usize = self.open.len();
        n > 0 && self.open[n - 1] == kind
    }

    /// A text delta, in the stream's text block.
    fn text_delta(&mut self, text: &str)
        ensures
            final(self)@ == text_delta(old(self)@, text@),
    {
        if !self.last_is(OpenKind::Text) {
            self.open_block(
                OpenKind::Text,
                Json::object().with("type", Json::text("text")).with(
                    "text",
                    Json::Str(String::new()),
                ),
            );
        }
        let index: usize = self.open.len() - 1;
        self.emit(
            Event::BlockDelta { index, kind: "text_delta", field: "text", text: text.to_owned() },
        );
    }

    /// A thinking delta, in the stream's thinking block.
    fn thinking_delta(&mut self, text: &str)
        ensures
            final(self)@ == thinking_delta(old(self)@, text@),
    {
        if !self.last_is(OpenKind::Thinking) {
            self.open_block(
                OpenKind::Thinking,
                Json::object().with("type", Json::text("thinking")).with(
                    "thinking",
                    Json::Str(String::new()),
                ).with("signature", Json::Null),
            );
        }
        let index: usize = self.open.len() - 1;
        self.emit(
            Event::BlockDelta {
                index,
                kind: "thinking_delta",
                field: "thinking",
                text: text.to_owned(),
            },
        );
    }

    /// The content index of an upstream call index.
    fn slot(&self, call: u64) -> (r: Option<usize>)
        ensures
            match r {
                Some(i) => self@.slots.contains_key(call) && self@.slots[call] == i,
                None => !self@.slots.contains_key(call),
            },
    {
        let mut n: usize = self.slots.len();
        assert(self.slots@.take(n as int) == self.slots@);
        while n > 0
            invariant
                n <= self.slots@.len(),
                self@.slots == slots_view(self.slots@),
                self@.slots.contains_key(call) == slots_view(
                    self.slots@.take(n as int),
                ).contains_key(call),
                self@.slots.contains_key(call) ==> self@.slots[call] == slots_view(
                    self.slots@.take(n as int),
                )[call],
            decreases n,
        {
            assert(self.slots@.take(n as int).drop_last() == self.slots@.take(n - 1));
            if self.slots[n - 1].0 == call {
                return Some(self.slots[n - 1].1);
            }
            n = n - 1;
        }
        None
    }

    /// One entry of `tool_calls`.
    fn call(&mut self, call: &Json, meta: &StreamMeta)
        ensures
            final(self)@ == call_step(old(self)@, call@, meta@),
    {
        let function = match call.get("function") {
            Some(f) => f,
            None => {
                return;
            },
        };
        let i: u64 = match call.get_u64("index") {
            Some(i) => i,
            None => 0,
        };
        let index: usize = match self.slot(i) {
            Some(index) => index,
            None => {
                let index: usize = self.open.len();
                let block = tool_block_of(call, i, function, meta);
                self.open_block(OpenKind::Tool, block);
                let ghost before = self.slots@;
                self.slots.push((i, index));
                assert(self.slots@.drop_last() == before);
                index
            },
        };
        assert(self@ == tool_block(old(self)@, call@, function@, meta@));
        assert(self@.slots[i] == index);
        match unless_empty(function.get_str("arguments")) {
            Some(arguments) => self.emit(
                Event::BlockDelta {
                    index,
                    kind: "input_json_delta",
                    field: "partial_json",
                    text: arguments.to_owned(),
                },
            ),
            None => {},
        }
    }

    /// Close the open blocks, the last one first.
    fn close_all(&mut self)
        ensures
            final(self)@ == close_all(old(self)@),
    {
        let ghost start = self@;
        let mut n: usize = self.open.len();
        assert(start.out + stops(0) == start.out);
        let ghost mut done = Seq::<EventV>::empty();
        assert(start.out + done == start.out);
        assert(done + stops(n as nat) == stops(n as nat));
        while n > 0
            invariant
                self@ == (RunV { out: start.out + done, ..start }),
                done + stops(n as nat) == stops(start.open.len()),
            decreases n,
        {
            let ghost before = done;
            self.emit(Event::BlockStop { index: (n - 1) as usize });
            proof {
                let stop = EventV::BlockStop { index: (n - 1) as nat };
                done = done.push(stop);
                assert(start.out + done == (start.out + before).push(stop));
                assert(before + (seq![stop] + stops((n - 1) as nat)) == done + stops(
                    (n - 1) as nat,
                ));
            }
            n = n - 1;
        }
        assert(done + stops(0) == done);
        self.open = Vec::new();
        assert(self.open@ == Seq::<OpenKind>::empty());
    }

    /// One choice of an upstream chunk.
    fn choice(&mut self, choice: &Json, meta: &StreamMeta)
        ensures
            final(self)@ == choice_step(old(self)@, choice@, meta@),
    {
        match choice.get("delta") {
            Some(delta) => {
                match unless_empty(delta.get_str("content")) {
                    Some(text) => self.text_delta(text),
                    None => {},
                }
                match unless_empty(delta.get_str("reasoning_content")) {
                    Some(text) => self.thinking_delta(text),
                    None => {},
                }
                let ghost thought = self@;
                let calls = delta.list("tool_calls");
                let ghost all = delta@.list("tool_calls"@);
                let mut i: usize = 0;
                assert(all.take(0) == Seq::<JsonV>::empty());
                while i < calls.len()
                    invariant
                        i <= calls@.len(),
                        all == items_view(calls@),
                        self@ == calls_run(thought, all.take(i as int), meta@),
                    decreases calls@.len() - i,
                {
                    proof {
                        lemma_items_view(calls@);
                        assert(all.take(i + 1).drop_last() == all.take(i as int));
                        assert(all.take(i + 1).last() == calls@[i as int]@);
                    }
                    self.call(&calls[i], meta);
                    i = i + 1;
                }
                assert(all.take(all.len() as int) == all);
                assert(self@ == calls_run(thought, delta_calls(choice@), meta@));
            },
            None => {
                assert(self@ == calls_run(self@, delta_calls(choice@), meta@));
            },
        }
        match unless_empty(choice.get_str("finish_reason")) {
            Some(reason) => {
                self.finish_reason = Some(map_stop_reason(reason));
                self.close_all();
            },
            None => {},
        }
    }

    /// One upstream chunk.
    fn chunk(&mut self, v: &Json, meta: &StreamMeta)
        ensures
            final(self)@ == chunk_step(old(self)@, v@, meta@),
    {
        // The usage-injection chunk carries `usage` (often with empty
        // `choices`); observe it regardless of when it lands.
        self.observe_usage(v);
        let choices = v.list("choices");
        let ghost all = v@.list("choices"@);
        proof {
            lemma_items_view(choices@);
        }
        if choices.len() == 0 {
            return;
        }
        self.begin(v, meta);
        let ghost begun = self@;
        let mut i: usize = 0;
        assert(all.take(0) == Seq::<JsonV>::empty());
        while i < choices.len()
            invariant
                i <= choices@.len(),
                all == items_view(choices@),
                self@ == choices_run(begun, all.take(i as int), meta@),
            decreases choices@.len() - i,
        {
            proof {
                lemma_items_view(choices@);
                assert(all.take(i + 1).drop_last() == all.take(i as int));
                assert(all.take(i + 1).last() == choices@[i as int]@);
            }
            self.choice(&choices[i], meta);
            i = i + 1;
        }
        assert(all.take(all.len() as int) == all);
    }

    /// One upstream event, terminator included.
    fn event(&mut self, event: &[u8], meta: &StreamMeta)
        ensures
            final(self)@ == event_step(old(self)@, event@, meta@),
    {
        match value_of_event(event) {
            Some(v) => self.chunk(&v, meta),
            None => {},
        }
    }
}

/// Upstream finish reasons -> the Anthropic stop vocabulary.
fn map_stop_reason(reason: &str) -> (r: String)
    ensures
        r@ == stop_vocabulary(reason@),
{
    if same(reason, "length") {
        "max_tokens".to_owned()
    } else if same(reason, "tool_calls") {
        "tool_use".to_owned()
    } else if same(reason, "stop") {
        "end_turn".to_owned()
    } else {
        reason.to_owned()
    }
}

/// The block of a tool call on first sight.
fn tool_block_of(call: &Json, i: u64, function: &Json, meta: &StreamMeta) -> (r: Json)
    requires
        i == call_index(call@),
    ensures
        r@ == fresh_tool(call@, function@, meta@),
{
    let id = match call.get_str("id") {
        Some(id) => id.to_owned(),
        None => concat("toolu_stream_", decimal_text(i as u128).as_str()),
    };
    let name = owned_or_empty(function.get_str("name"));
    let direct = one_of(&meta.client_tool_names, name.as_str());
    let block = Json::object().with("type", Json::text("tool_use")).with("id", Json::Str(id)).with(
        "name",
        Json::Str(name),
    ).with("input", Json::object());
    if direct {
        block.with("caller", Json::object().with("type", Json::text("direct")))
    } else {
        block
    }
}

/// The data of an upstream event.
fn payload_of_event(event: &str) -> (r: String)
    ensures
        r@ == event_payload(event@),
{
    let ls = lines(event);
    let ghost all = lines_of(event@);
    let mut fields: Vec<String> = Vec::new();
    let mut i: usize = 0;
    assert(all.take(0) == Seq::<Seq<char>>::empty());
    assert(texts(fields@) == Seq::<Seq<char>>::empty());
    while i < ls.len()
        invariant
            i <= ls@.len(),
            texts(ls@) == all,
            texts(fields@) == data_fields(all.take(i as int)),
        decreases ls@.len() - i,
    {
        proof {
            assert(all.take(i + 1).drop_last() == all.take(i as int));
            assert(all.take(i + 1).last() == ls@[i as int]@);
            reveal_strlit("data:");
        }
        if starts_with(ls[i].as_str(), "data:") {
            let chars = crate::text::chars_of(ls[i].as_str());
            let field = crate::text::text_of(&chars, 5, chars.len());
            proof {
                assert(field@ == ls@[i as int]@.skip(5));
                assert(texts(fields@.push(field)) == texts(fields@).push(field@));
            }
            fields.push(field);
        }
        i = i + 1;
    }
    assert(all.take(all.len() as int) == all);
    let data = join(&fields, "\n");
    trim(data.as_str()).to_owned()
}

/// The value an upstream event carries. `: comment` lines (upstream
/// keep-alives, proxy control frames) carry no Anthropic meaning — dropped,
/// never forwarded.
fn value_of_event(event: &[u8]) -> (r: Option<Json>)
    ensures
        match r {
            Some(v) => event_value(event@) == Some(v@),
            None => event_value(event@) is None,
        },
{
    match text_in(event) {
        Some(text) => {
            proof {
                vstd::utf8::encode_utf8_valid_utf8(text@);
                vstd::utf8::encode_utf8_decode_utf8(text@);
            }
            let data = payload_of_event(text);
            if is_empty(data.as_str()) {
                None
            } else {
                parse(data.as_str())
            }
        },
        None => None,
    }
}

/// The byte index of the final `\n` of the next complete SSE event
/// (a blank-line terminator), or None when the event is incomplete.
pub fn find_event_end(buf: &[u8]) -> (r: Option<usize>)
    ensures
        match (r, event_end(buf@, 0)) {
            (Some(a), Some(b)) => a == b,
            (None, None) => true,
            _ => false,
        },
        r is Some ==> r->0 < buf@.len(),
{
    let n: usize = buf.len();
    let mut i: usize = 0;
    while i < n && i + 1 < n
        invariant
            i <= n == buf@.len(),
            event_end(buf@, 0) == event_end(buf@, i as int),
        decreases n - i,
    {
        if buf[i] == 10 && buf[i + 1] == 10 {
            return Some(i + 1);
        }
        i = i + 1;
    }
    None
}

/// Taking the first event off a buffer.
proof fn lemma_first_event(buf: Seq<u8>, e: int)
    requires
        event_end(buf, 0) == Some(e),
    ensures
        0 < e < buf.len(),
        complete_events(buf) == seq![buf.take(e + 1)] + complete_events(buf.skip(e + 1)),
        incomplete_rest(buf) == incomplete_rest(buf.skip(e + 1)),
{
    lemma_event_end(buf, 0);
}

/// No event is complete in what follows the last complete event.
proof fn lemma_rest_incomplete(buf: Seq<u8>)
    ensures
        event_end(incomplete_rest(buf), 0) is None,
    decreases buf.len(),
{
    match event_end(buf, 0) {
        None => {},
        Some(e) => {
            lemma_event_end(buf, 0);
            lemma_rest_incomplete(buf.skip(e + 1));
        },
    }
}

/// Feed the complete events of a buffer to a run; what is left over comes
/// back.
fn drain(run: &mut Run, buf: Vec<u8>, meta: &StreamMeta) -> (r: Vec<u8>)
    ensures
        r@ == incomplete_rest(buf@),
        final(run)@ == events_run(old(run)@, complete_events(buf@), meta@),
{
    let ghost whole = buf@;
    let ghost start = run@;
    let mut rest = buf;
    let ghost mut done = Seq::<Seq<u8>>::empty();
    assert(done + complete_events(whole) == complete_events(whole));
    loop
        invariant
            run@ == events_run(start, done, meta@),
            done + complete_events(rest@) == complete_events(whole),
            incomplete_rest(rest@) == incomplete_rest(whole),
        ensures
            rest@ == incomplete_rest(whole),
            run@ == events_run(start, complete_events(whole), meta@),
        decreases rest@.len(),
    {
        let end: usize = match find_event_end(rest.as_slice()) {
            Some(end) => end,
            None => {
                assert(done + Seq::<Seq<u8>>::empty() == done);
                break;
            },
        };
        proof {
            lemma_first_event(rest@, end as int);
        }
        let ghost before = rest@;
        assert(rest.len() <= usize::MAX);
        let tail = rest.split_off(end + 1);
        run.event(rest.as_slice(), meta);
        proof {
            let first = before.take(end + 1);
            assert(rest@ == first);
            assert(tail@ == before.skip(end + 1));
            assert(done + (seq![first] + complete_events(tail@)) == done.push(first)
                + complete_events(tail@));
            assert(done.push(first).drop_last() == done);
            done = done.push(first);
        }
        rest = tail;
    }
    rest
}

/// Translates upstream chat-completions SSE bytes into Anthropic events.
pub struct StreamTranslator {
    retained: Vec<Bytes>,
    /// The retained bytes, counted up to the cap.
    retained_len: usize,
    pending: Vec<u8>,
    committed: bool,
    finishing: bool,
    run: Run,
    meta: StreamMeta,
}

impl View for StreamTranslator {
    type V = TranslatorV;

    closed spec fn view(&self) -> TranslatorV {
        TranslatorV {
            retained: contents(self.retained@),
            pending: self.pending@,
            committed: self.committed,
            finishing: self.finishing,
            run: self.run@,
            meta: self.meta@,
        }
    }
}

/// Holds of every translator state that chunks lead to: no complete event
/// waits, a started message is committed, and blocks are open only in a
/// started message.
pub open spec fn sound(t: TranslatorV) -> bool {
    &&& event_end(t.pending, 0) is None
    &&& t.run.started ==> t.committed
    &&& !t.run.started ==> t.run.open.len() == 0
}

impl Default for StreamTranslator {
    fn default() -> (r: Self)
        ensures
            r.wf(),
            r@ == fresh_translator(
                StreamMetaV { client_tool_names: Seq::empty(), model: Seq::empty() },
            ),
    {
        Self::new()
    }
}

impl StreamTranslator {
    /// The internal invariant.
    pub closed spec fn wf(self) -> bool {
        let total = joined_bytes(contents(self.retained@)).len();
        &&& self.retained_len == if total < RETAIN_CAP {
            total as int
        } else {
            RETAIN_CAP as int
        }
        &&& sound(self@)
    }

    /// What the invariant says of the state.
    pub proof fn lemma_wf(self)
        requires
            self.wf(),
        ensures
            sound(self@),
    {
    }

    pub fn new() -> (r: Self)
        ensures
            r.wf(),
            r@ == fresh_translator(
                StreamMetaV { client_tool_names: Seq::empty(), model: Seq::empty() },
            ),
    {
        let meta = StreamMeta { client_tool_names: Vec::new(), model: String::new() };
        assert(meta@ == StreamMetaV { client_tool_names: Seq::empty(), model: Seq::empty() });
        Self::with_meta(meta)
    }

    pub fn with_meta(meta: StreamMeta) -> (r: Self)
        ensures
            r.wf(),
            r@ == fresh_translator(meta@),
    {
        let r = StreamTranslator {
            retained: Vec::new(),
            retained_len: 0,
            pending: Vec::new(),
            committed: false,
            finishing: false,
            run: Run::new(),
            meta,
        };
        assert(contents(r.retained@) == Seq::<Seq<u8>>::empty());
        r
    }

    /// Keep a chunk for replay, unless the kept ones reach the cap.
    fn retain(&mut self, chunk: &Bytes)
        requires
            old(self).wf(),
        ensures
            final(self).wf(),
            final(self)@ == (TranslatorV {
                retained: retained_with(old(self)@.retained, content(*chunk)),
                ..old(self)@
            }),
    {
        if self.retained_len < RETAIN_CAP {
            let copy = share(chunk);
            let n: usize = slice_of(chunk).len();
            let room: usize = RETAIN_CAP - self.retained_len;
            proof {
                let before = contents(self.retained@);
                let after = contents(self.retained@.push(copy));
                assert(after == before.push(content(*chunk)));
                assert(after.drop_last() == before);
            }
            self.retained_len = if n < room {
                self.retained_len + n
            } else {
                RETAIN_CAP
            };
            self.retained.push(copy);
        }
    }

    /// Translate one chunk of upstream bytes; returns the emitted
    /// Anthropic events this chunk yielded.
    pub fn push(&mut self, chunk: &Bytes) -> (r: Vec<Bytes>)
        requires
            old(self).wf(),
        ensures
            final(self).wf(),
            final(self)@ == pushed(old(self)@, content(*chunk)),
            contents(r@) == all_rendered(final(self)@.run.out),
    {
        let ghost before = self@;
        if !self.committed {
            self.retain(chunk);
        }
        let mut buf: Vec<u8> = Vec::new();
        std::mem::swap(&mut buf, &mut self.pending);
        buf.extend_from_slice(slice_of(chunk));
        assert(buf@ == before.pending + content(*chunk));
        proof {
            lemma_rest_incomplete(buf@);
            lemma_events_run_started(quiet(before.run), complete_events(buf@), before.meta);
            lemma_started_stays(quiet(before.run), complete_events(buf@), before.meta);
        }
        self.run.hush();
        self.pending = drain(&mut self.run, buf, &self.meta);
        if self.run.started {
            self.committed = true;
        }
        if self.committed {
            self.retained = Vec::new();
            self.retained_len = 0;
            assert(contents(self.retained@) == Seq::<Seq<u8>>::empty());
        }
        render(&self.run.out)
    }

    /// True once an Anthropic event committed: proxy control frames stop
    /// reaching the client and upstream errors must surface as Anthropic
    /// `error` events, not raw OpenAI frames.
    pub fn committed(&self) -> (r: bool)
        ensures
            r == self@.committed,
    {
        self.committed
    }

    /// End of stream: close the open blocks, emit `message_delta` +
    /// `message_stop`. For a stream that never committed to an event,
    /// instead replay every retained upstream byte byte-exact — including
    /// control frames. Safe to call more than once: only the first call
    /// yields events.
    pub fn finish(&mut self) -> (r: Vec<Bytes>)
        requires
            old(self).wf(),
        ensures
            final(self).wf(),
            final(self)@ == finished(old(self)@),
            contents(r@) == finish_output(old(self)@),
    {
        self.run.hush();
        if !self.committed {
            let mut out: Vec<Bytes> = Vec::new();
            std::mem::swap(&mut out, &mut self.retained);
            self.retained_len = 0;
            self.committed = true;
            assert(contents(self.retained@) == Seq::<Seq<u8>>::empty());
            return out;
        }
        if self.finishing {
            let none: Vec<Bytes> = Vec::new();
            assert(contents(none@) == all_rendered(Seq::empty()));
            return none;
        }
        self.finishing = true;
        self.run.close_all();
        if self.run.started {
            let stop_reason = match &self.run.finish_reason {
                Some(reason) => Some(reason.clone()),
                None => None,
            };
            let input: u64 = self.run.input_tokens;
            let output: u64 = self.run.output_tokens;
            self.run.emit(Event::MessageDelta { stop_reason, input, output });
            self.run.emit(Event::MessageStop);
        }
        render(&self.run.out)
    }

    /// An Anthropic in-stream `error` event, emitted when the upstream
    /// fails after `message_start` committed. The terminal event of the
    /// stream in this protocol: no `message_delta`/`message_stop` follow.
    pub fn error_event(&self, code: &str, message: &str) -> (r: Bytes)
        ensures
            content(r) == error_frame(code@, message@),
    {
        frame_of(
            "error",
            &Json::object().with("type", Json::text("error")).with(
                "error",
                Json::object().with("type", Json::text("upstream_error")).with(
                    "code",
                    Json::text(code),
                ).with("message", Json::text(message)),
            ),
        )
    }
}

/// Whether blocks are open only in a started message.
pub open spec fn blocks_in_message(run: RunV) -> bool {
    !run.started ==> run.open.len() == 0
}

proof fn lemma_calls_run_started(run: RunV, calls: Seq<JsonV>, meta: StreamMetaV)
    ensures
        calls_run(run, calls, meta).started == run.started,
    decreases calls.len(),
{
    if calls.len() > 0 {
        lemma_calls_run_started(run, calls.drop_last(), meta);
    }
}

proof fn lemma_choices_run_started(run: RunV, choices: Seq<JsonV>, meta: StreamMetaV)
    ensures
        choices_run(run, choices, meta).started == run.started,
    decreases choices.len(),
{
    if choices.len() > 0 {
        let before = choices_run(run, choices.drop_last(), meta);
        lemma_choices_run_started(run, choices.drop_last(), meta);
        let choice = choices.last();
        let said = match delta_text(choice, "content"@) {
            Some(t) => text_delta(before, t),
            None => before,
        };
        let thought = match delta_text(choice, "reasoning_content"@) {
            Some(t) => thinking_delta(said, t),
            None => said,
        };
        lemma_calls_run_started(thought, delta_calls(choice), meta);
    }
}

/// A message once started stays so.
pub proof fn lemma_started_stays(run: RunV, events: Seq<Seq<u8>>, meta: StreamMetaV)
    ensures
        run.started ==> events_run(run, events, meta).started,
    decreases events.len(),
{
    if events.len() > 0 {
        let before = events_run(run, events.drop_last(), meta);
        lemma_started_stays(run, events.drop_last(), meta);
        match event_value(events.last()) {
            Some(v) => {
                let begun = begin(observe_usage(before, v), v, meta);
                lemma_choices_run_started(begun, v.list("choices"@), meta);
            },
            None => {},
        }
    }
}

/// Events keep blocks inside a started message.
proof fn lemma_events_run_started(run: RunV, events: Seq<Seq<u8>>, meta: StreamMetaV)
    requires
        blocks_in_message(run),
    ensures
        blocks_in_message(events_run(run, events, meta)),
    decreases events.len(),
{
    if events.len() > 0 {
        let before = events_run(run, events.drop_last(), meta);
        lemma_events_run_started(run, events.drop_last(), meta);
        match event_value(events.last()) {
            Some(v) => {
                let begun = begin(observe_usage(before, v), v, meta);
                lemma_choices_run_started(begun, v.list("choices"@), meta);
            },
            None => {},
        }
    }
}

}
