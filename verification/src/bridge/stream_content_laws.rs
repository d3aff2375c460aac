//! What a translated stream says: the texts, thoughts, calls, counts and
//! reasons of the upstream chunks, read off the events' own data.
use crate::bridge::sse::{
    begin, call_index, call_step, calls_run, choice_step, choices_run, chunk_step, close_all,
    complete_events, delta_calls, delta_text, emit, error_frame, event_data, event_end,
    event_value, events_run, finished, fresh_text, fresh_thinking, fresh_tool, fresh_translator,
    incomplete_rest, lemma_event_end, observe_usage, open_block, pushed, quiet, rendered,
    reuse_block, stop_vocabulary, stops, text_delta, thinking_delta, tool_block, EventV, OpenKind,
    RunV, StreamMetaV, TranslatorV,
};
use crate::buffers::joined_bytes;
use crate::codec::json_text;
use crate::json::{empty_object, JsonV};
use crate::text::non_empty;
use vstd::prelude::*;
use vstd::utf8::encode_utf8;

verus! {

/// The members of event data, told apart.
pub proof fn lemma_event_keys()
    ensures
        "type"@ != "delta"@,
        "type"@ != "message"@,
        "type"@ != "index"@,
        "type"@ != "content_block"@,
        "type"@ != "usage"@,
        "type"@ != "text"@,
        "type"@ != "thinking"@,
        "type"@ != "partial_json"@,
        "type"@ != "stop_reason"@,
        "type"@ != "stop_sequence"@,
        "delta"@ != "message"@,
        "delta"@ != "index"@,
        "delta"@ != "content_block"@,
        "delta"@ != "usage"@,
        "index"@ != "content_block"@,
        "stop_reason"@ != "stop_sequence"@,
        "text_delta"@ != "thinking_delta"@,
        "text_delta"@ != "input_json_delta"@,
        "thinking_delta"@ != "input_json_delta"@,
{
    reveal_strlit("type");
    reveal_strlit("delta");
    reveal_strlit("message");
    reveal_strlit("index");
    reveal_strlit("content_block");
    reveal_strlit("usage");
    reveal_strlit("text");
    reveal_strlit("thinking");
    reveal_strlit("partial_json");
    reveal_strlit("stop_reason");
    reveal_strlit("stop_sequence");
    reveal_strlit("text_delta");
    reveal_strlit("thinking_delta");
    reveal_strlit("input_json_delta");
    assert("type"@[1] == 'y' && "text"@[1] == 'e' && "type"@.len() == 4);
    assert("delta"@[0] == 'd' && "index"@[0] == 'i' && "usage"@[0] == 'u');
    assert("delta"@.len() == 5 && "index"@.len() == 5 && "usage"@.len() == 5);
    assert("message"@.len() == 7 && "content_block"@.len() == 13 && "thinking"@.len() == 8);
    assert("partial_json"@.len() == 12 && "stop_reason"@.len() == 11);
    assert("stop_sequence"@.len() == 13);
    assert("text_delta"@.len() == 10 && "thinking_delta"@.len() == 14);
    assert("input_json_delta"@.len() == 16);
}

/// What an event's delta of the given type holds in the given member.
pub open spec fn delta_in(e: EventV, kind: Seq<char>, field: Seq<char>) -> Seq<char> {
    match event_data(e).get("delta"@) {
        Some(d) => match d.get_str(field) {
            Some(text) => if d.get_str("type"@) == Some(kind) {
                text
            } else {
                Seq::empty()
            },
            None => Seq::empty(),
        },
        None => Seq::empty(),
    }
}

/// What the deltas of the given type hold, one after the other.
pub open spec fn told(events: Seq<EventV>, kind: Seq<char>, field: Seq<char>) -> Seq<char>
    decreases events.len(),
{
    if events.len() == 0 {
        Seq::empty()
    } else {
        told(events.drop_last(), kind, field) + delta_in(events.last(), kind, field)
    }
}

/// The texts, the thoughts and the arguments that events tell.
pub open spec fn told_text(events: Seq<EventV>) -> Seq<char> {
    told(events, "text_delta"@, "text"@)
}

pub open spec fn told_thinking(events: Seq<EventV>) -> Seq<char> {
    told(events, "thinking_delta"@, "thinking"@)
}

pub open spec fn told_arguments(events: Seq<EventV>) -> Seq<char> {
    told(events, "input_json_delta"@, "partial_json"@)
}

/// A text member of each choice's delta, one after the other.
pub open spec fn heard_in(choices: Seq<JsonV>, key: Seq<char>) -> Seq<char>
    decreases choices.len(),
{
    if choices.len() == 0 {
        Seq::empty()
    } else {
        heard_in(choices.drop_last(), key) + match choices.last().get("delta"@) {
            Some(delta) => match delta.get_str(key) {
                Some(text) => text,
                None => Seq::empty(),
            },
            None => Seq::empty(),
        }
    }
}

/// The arguments of each call, one after the other.
pub open spec fn heard_calls(calls: Seq<JsonV>) -> Seq<char>
    decreases calls.len(),
{
    if calls.len() == 0 {
        Seq::empty()
    } else {
        heard_calls(calls.drop_last()) + match calls.last().get("function"@) {
            Some(function) => match function.get_str("arguments"@) {
                Some(text) => text,
                None => Seq::empty(),
            },
            None => Seq::empty(),
        }
    }
}

/// The arguments in each choice's delta, one after the other.
pub open spec fn heard_arguments_in(choices: Seq<JsonV>) -> Seq<char>
    decreases choices.len(),
{
    if choices.len() == 0 {
        Seq::empty()
    } else {
        heard_arguments_in(choices.drop_last()) + match choices.last().get("delta"@) {
            Some(delta) => heard_calls(delta.list("tool_calls"@)),
            None => Seq::empty(),
        }
    }
}

/// The chunks that upstream events carry, in order.
pub open spec fn chunks_of(events: Seq<Seq<u8>>) -> Seq<JsonV>
    decreases events.len(),
{
    if events.len() == 0 {
        Seq::empty()
    } else {
        match event_value(events.last()) {
            Some(v) => chunks_of(events.drop_last()).push(v),
            None => chunks_of(events.drop_last()),
        }
    }
}

/// The choices of upstream chunks, in order.
pub open spec fn choices_of(chunks: Seq<JsonV>) -> Seq<JsonV>
    decreases chunks.len(),
{
    if chunks.len() == 0 {
        Seq::empty()
    } else {
        choices_of(chunks.drop_last()) + chunks.last().list("choices"@)
    }
}

proof fn lemma_heard_append(first: Seq<JsonV>, second: Seq<JsonV>, key: Seq<char>)
    ensures
        heard_in(first + second, key) == heard_in(first, key) + heard_in(second, key),
        heard_arguments_in(first + second) == heard_arguments_in(first) + heard_arguments_in(
            second,
        ),
    decreases second.len(),
{
    if second.len() == 0 {
        assert(first + second == first);
        assert(heard_in(first, key) + heard_in(second, key) == heard_in(first, key));
        assert(heard_arguments_in(first) + heard_arguments_in(second) == heard_arguments_in(
            first,
        ));
    } else {
        assert((first + second).drop_last() == first + second.drop_last());
        lemma_heard_append(first, second.drop_last(), key);
        assert((first + second).last() == second.last());
        assert(heard_in(first + second, key) =~= heard_in(first, key) + heard_in(second, key));
        assert(heard_arguments_in(first + second) =~= heard_arguments_in(first)
            + heard_arguments_in(second));
    }
}

proof fn lemma_told_append(
    first: Seq<EventV>,
    second: Seq<EventV>,
    kind: Seq<char>,
    field: Seq<char>,
)
    ensures
        told(first + second, kind, field) == told(first, kind, field) + told(second, kind, field),
    decreases second.len(),
{
    if second.len() == 0 {
        assert(first + second == first);
        assert(told(first, kind, field) + told(second, kind, field) == told(first, kind, field));
    } else {
        assert((first + second).drop_last() == first + second.drop_last());
        lemma_told_append(first, second.drop_last(), kind, field);
        assert(told(first + second, kind, field) =~= told(first, kind, field) + told(
            second,
            kind,
            field,
        ));
    }
}

proof fn lemma_told_stops(n: nat, kind: Seq<char>, field: Seq<char>)
    ensures
        told(stops(n), kind, field).len() == 0,
    decreases n,
{
    if n > 0 {
        lemma_event_keys();
        let first = seq![EventV::BlockStop { index: (n - 1) as nat }];
        lemma_told_stops((n - 1) as nat, kind, field);
        lemma_told_append(first, stops((n - 1) as nat), kind, field);
        assert(first.drop_last() =~= Seq::<EventV>::empty());
        assert(event_data(first.last()).get("delta"@) is None);
        assert(told(first.drop_last(), kind, field).len() == 0);
        assert(told(first, kind, field).len() == 0);
    }
}

/// What an event adds to what events tell.
proof fn lemma_told_push(events: Seq<EventV>, e: EventV)
    ensures
        told_text(events.push(e)) == told_text(events) + delta_in(e, "text_delta"@, "text"@),
        told_thinking(events.push(e)) == told_thinking(events) + delta_in(
            e,
            "thinking_delta"@,
            "thinking"@,
        ),
        told_arguments(events.push(e)) == told_arguments(events) + delta_in(
            e,
            "input_json_delta"@,
            "partial_json"@,
        ),
        !(e is BlockDelta) ==> {
            &&& told_text(events.push(e)) == told_text(events)
            &&& told_thinking(events.push(e)) == told_thinking(events)
            &&& told_arguments(events.push(e)) == told_arguments(events)
        },
{
    lemma_event_keys();
    assert(events.push(e).drop_last() == events);
    if !(e is BlockDelta) {
        assert(delta_in(e, "text_delta"@, "text"@) =~= Seq::<char>::empty());
        assert(delta_in(e, "thinking_delta"@, "thinking"@) =~= Seq::<char>::empty());
        assert(delta_in(e, "input_json_delta"@, "partial_json"@) =~= Seq::<char>::empty());
        assert(told_text(events) + Seq::<char>::empty() =~= told_text(events));
        assert(told_thinking(events) + Seq::<char>::empty() =~= told_thinking(events));
        assert(told_arguments(events) + Seq::<char>::empty() =~= told_arguments(events));
    }
}

proof fn lemma_delta_event(index: nat, kind: Seq<char>, field: Seq<char>, text: Seq<char>)
    requires
        field != "type"@,
    ensures
        ({
            let e = EventV::BlockDelta { index, kind, field, text };
            &&& delta_in(e, kind, field) == text
            &&& forall|k: Seq<char>, f: Seq<char>|
                k != kind ==> (#[trigger] delta_in(e, k, f)).len() == 0
        }),
{
    lemma_event_keys();
}

proof fn lemma_text_told(run: RunV, text: Seq<char>)
    ensures
        told_text(text_delta(run, text).out) == told_text(run.out) + text,
        told_thinking(text_delta(run, text).out) == told_thinking(run.out),
        told_arguments(text_delta(run, text).out) == told_arguments(run.out),
        told_text(thinking_delta(run, text).out) == told_text(run.out),
        told_thinking(thinking_delta(run, text).out) == told_thinking(run.out) + text,
        told_arguments(thinking_delta(run, text).out) == told_arguments(run.out),
{
    lemma_event_keys();
    let r = reuse_block(run, OpenKind::Text, fresh_text());
    lemma_told_push(run.out, EventV::BlockStart { index: run.open.len(), block: fresh_text() });
    let e = EventV::BlockDelta {
        index: (r.open.len() - 1) as nat,
        kind: "text_delta"@,
        field: "text"@,
        text,
    };
    lemma_told_push(r.out, e);
    lemma_delta_event((r.open.len() - 1) as nat, "text_delta"@, "text"@, text);
    assert(delta_in(e, "thinking_delta"@, "thinking"@) =~= Seq::<char>::empty());
    assert(delta_in(e, "input_json_delta"@, "partial_json"@) =~= Seq::<char>::empty());
    let s = reuse_block(run, OpenKind::Thinking, fresh_thinking());
    lemma_told_push(
        run.out,
        EventV::BlockStart { index: run.open.len(), block: fresh_thinking() },
    );
    let f = EventV::BlockDelta {
        index: (s.open.len() - 1) as nat,
        kind: "thinking_delta"@,
        field: "thinking"@,
        text,
    };
    lemma_told_push(s.out, f);
    lemma_delta_event((s.open.len() - 1) as nat, "thinking_delta"@, "thinking"@, text);
    assert(delta_in(f, "text_delta"@, "text"@) =~= Seq::<char>::empty());
    assert(delta_in(f, "input_json_delta"@, "partial_json"@) =~= Seq::<char>::empty());
    assert(told_text(s.out) + Seq::<char>::empty() =~= told_text(s.out));
    assert(told_arguments(s.out) + Seq::<char>::empty() =~= told_arguments(s.out));
    assert(told_thinking(r.out) + Seq::<char>::empty() =~= told_thinking(r.out));
    assert(told_arguments(r.out) + Seq::<char>::empty() =~= told_arguments(r.out));
}

proof fn lemma_call_told(run: RunV, call: JsonV, meta: StreamMetaV)
    ensures
        told_text(call_step(run, call, meta).out) == told_text(run.out),
        told_thinking(call_step(run, call, meta).out) == told_thinking(run.out),
        told_arguments(call_step(run, call, meta).out) == told_arguments(run.out) + match call.get(
            "function"@,
        ) {
            Some(function) => match function.get_str("arguments"@) {
                Some(text) => text,
                None => Seq::empty(),
            },
            None => Seq::empty(),
        },
{
    lemma_event_keys();
    assert(told_arguments(run.out) + Seq::<char>::empty() =~= told_arguments(run.out));
    match call.get("function"@) {
        Some(function) => {
            lemma_told_push(
                run.out,
                EventV::BlockStart {
                    index: run.open.len(),
                    block: fresh_tool(call, function, meta),
                },
            );
            let r = tool_block(run, call, function, meta);
            match non_empty(function.get_str("arguments"@)) {
                Some(arguments) => {
                    let index = r.slots[call_index(call)];
                    let e = EventV::BlockDelta {
                        index,
                        kind: "input_json_delta"@,
                        field: "partial_json"@,
                        text: arguments,
                    };
                    lemma_told_push(r.out, e);
                    lemma_delta_event(index, "input_json_delta"@, "partial_json"@, arguments);
                    assert(delta_in(e, "text_delta"@, "text"@) =~= Seq::<char>::empty());
                    assert(delta_in(e, "thinking_delta"@, "thinking"@) =~= Seq::<char>::empty());
                    assert(told_text(r.out) + Seq::<char>::empty() =~= told_text(r.out));
                    assert(told_thinking(r.out) + Seq::<char>::empty() =~= told_thinking(r.out));
                },
                None => {
                    match function.get_str("arguments"@) {
                        Some(text) => {
                            assert(text =~= Seq::<char>::empty());
                        },
                        None => {},
                    }
                },
            }
        },
        None => {},
    }
}

proof fn lemma_calls_told(run: RunV, calls: Seq<JsonV>, meta: StreamMetaV)
    ensures
        told_text(calls_run(run, calls, meta).out) == told_text(run.out),
        told_thinking(calls_run(run, calls, meta).out) == told_thinking(run.out),
        told_arguments(calls_run(run, calls, meta).out) == told_arguments(run.out) + heard_calls(
            calls,
        ),
    decreases calls.len(),
{
    if calls.len() > 0 {
        lemma_calls_told(run, calls.drop_last(), meta);
        lemma_call_told(calls_run(run, calls.drop_last(), meta), calls.last(), meta);
        assert(told_arguments(calls_run(run, calls, meta).out) =~= told_arguments(run.out)
            + heard_calls(calls));
    } else {
        assert(told_arguments(run.out) + heard_calls(calls) =~= told_arguments(run.out));
    }
}

proof fn lemma_choices_told(run: RunV, choices: Seq<JsonV>, meta: StreamMetaV)
    ensures
        told_text(choices_run(run, choices, meta).out) == told_text(run.out) + heard_in(
            choices,
            "content"@,
        ),
        told_thinking(choices_run(run, choices, meta).out) == told_thinking(run.out) + heard_in(
            choices,
            "reasoning_content"@,
        ),
        told_arguments(choices_run(run, choices, meta).out) == told_arguments(run.out)
            + heard_arguments_in(choices),
    decreases choices.len(),
{
    if choices.len() == 0 {
        assert(told_text(run.out) + Seq::<char>::empty() =~= told_text(run.out));
        assert(told_thinking(run.out) + Seq::<char>::empty() =~= told_thinking(run.out));
        assert(told_arguments(run.out) + Seq::<char>::empty() =~= told_arguments(run.out));
    } else {
        let head = choices.drop_last();
        lemma_choices_told(run, head, meta);
        let before = choices_run(run, head, meta);
        let choice = choices.last();
        let said = match delta_text(choice, "content"@) {
            Some(t) => {
                lemma_text_told(before, t);
                text_delta(before, t)
            },
            None => before,
        };
        let thought = match delta_text(choice, "reasoning_content"@) {
            Some(t) => {
                lemma_text_told(said, t);
                thinking_delta(said, t)
            },
            None => said,
        };
        lemma_calls_told(thought, delta_calls(choice), meta);
        let called = calls_run(thought, delta_calls(choice), meta);
        let after = choice_step(before, choice, meta);
        match non_empty(choice.get_str("finish_reason"@)) {
            Some(reason) => {
                lemma_told_append(called.out, stops(called.open.len()), "text_delta"@, "text"@);
                lemma_told_append(
                    called.out,
                    stops(called.open.len()),
                    "thinking_delta"@,
                    "thinking"@,
                );
                lemma_told_append(
                    called.out,
                    stops(called.open.len()),
                    "input_json_delta"@,
                    "partial_json"@,
                );
                lemma_told_stops(called.open.len(), "text_delta"@, "text"@);
                lemma_told_stops(called.open.len(), "thinking_delta"@, "thinking"@);
                lemma_told_stops(called.open.len(), "input_json_delta"@, "partial_json"@);
            },
            None => {},
        }
        assert(told_text(after.out) =~= told_text(run.out) + heard_in(choices, "content"@));
        assert(told_thinking(after.out) =~= told_thinking(run.out) + heard_in(
            choices,
            "reasoning_content"@,
        ));
        assert(told_arguments(after.out) =~= told_arguments(run.out) + heard_arguments_in(
            choices,
        ));
    }
}

proof fn lemma_chunk_told(run: RunV, v: JsonV, meta: StreamMetaV)
    ensures
        ({
            let out = chunk_step(run, v, meta).out;
            let choices = v.list("choices"@);
            &&& told_text(out) == told_text(run.out) + heard_in(choices, "content"@)
            &&& told_thinking(out) == told_thinking(run.out) + heard_in(
                choices,
                "reasoning_content"@,
            )
            &&& told_arguments(out) == told_arguments(run.out) + heard_arguments_in(choices)
        }),
{
    let seen = observe_usage(run, v);
    let choices = v.list("choices"@);
    lemma_told_push(
        seen.out,
        EventV::MessageStart { model: crate::bridge::sse::start_model(v, meta) },
    );
    if choices.len() == 0 {
        assert(told_text(run.out) + Seq::<char>::empty() =~= told_text(run.out));
        assert(told_thinking(run.out) + Seq::<char>::empty() =~= told_thinking(run.out));
        assert(told_arguments(run.out) + Seq::<char>::empty() =~= told_arguments(run.out));
    } else {
        lemma_choices_told(begin(seen, v, meta), choices, meta);
    }
}

proof fn lemma_events_told(run: RunV, events: Seq<Seq<u8>>, meta: StreamMetaV)
    ensures
        ({
            let out = events_run(run, events, meta).out;
            let choices = choices_of(chunks_of(events));
            &&& told_text(out) == told_text(run.out) + heard_in(choices, "content"@)
            &&& told_thinking(out) == told_thinking(run.out) + heard_in(
                choices,
                "reasoning_content"@,
            )
            &&& told_arguments(out) == told_arguments(run.out) + heard_arguments_in(choices)
        }),
    decreases events.len(),
{
    if events.len() == 0 {
        assert(told_text(run.out) + Seq::<char>::empty() =~= told_text(run.out));
        assert(told_thinking(run.out) + Seq::<char>::empty() =~= told_thinking(run.out));
        assert(told_arguments(run.out) + Seq::<char>::empty() =~= told_arguments(run.out));
    } else {
        let head = events.drop_last();
        lemma_events_told(run, head, meta);
        let before = events_run(run, head, meta);
        let earlier = choices_of(chunks_of(head));
        match event_value(events.last()) {
            Some(v) => {
                let choices = v.list("choices"@);
                lemma_chunk_told(before, v, meta);
                lemma_heard_append(earlier, choices, "content"@);
                lemma_heard_append(earlier, choices, "reasoning_content"@);
                assert(chunks_of(head).push(v).drop_last() =~= chunks_of(head));
                assert(choices_of(chunks_of(events)) == earlier + choices);
                let out = chunk_step(before, v, meta).out;
                lemma_sum(told_text(run.out), earlier, choices, "content"@);
                lemma_sum(told_thinking(run.out), earlier, choices, "reasoning_content"@);
                assert((told_arguments(run.out) + heard_arguments_in(earlier))
                    + heard_arguments_in(choices) =~= told_arguments(run.out) + (
                heard_arguments_in(earlier) + heard_arguments_in(choices)));
                assert(events_run(run, events, meta) == chunk_step(before, v, meta));
            },
            None => {},
        }
    }
}

proof fn lemma_sum(told: Seq<char>, first: Seq<JsonV>, second: Seq<JsonV>, key: Seq<char>)
    ensures
        (told + heard_in(first, key)) + heard_in(second, key) == told + (heard_in(first, key)
            + heard_in(second, key)),
{
    assert((told + heard_in(first, key)) + heard_in(second, key) =~= told + (heard_in(first, key)
        + heard_in(second, key)));
}

/// A stream is passed on character for character: the text deltas that a
/// chunk of bytes yields hold, one after the other, exactly the `content` of
/// the deltas in the upstream events that the bytes complete; the thinking
/// deltas hold their `reasoning_content`; and the input deltas hold the
/// arguments of their tool calls.
pub proof fn law_streams_are_passed_on_in_full(t: TranslatorV, chunk: Seq<u8>)
    ensures
        ({
            let out = pushed(t, chunk).run.out;
            let choices = choices_of(chunks_of(complete_events(t.pending + chunk)));
            &&& told_text(out) == heard_in(choices, "content"@)
            &&& told_thinking(out) == heard_in(choices, "reasoning_content"@)
            &&& told_arguments(out) == heard_arguments_in(choices)
        }),
{
    let events = complete_events(t.pending + chunk);
    lemma_events_told(quiet(t.run), events, t.meta);
    let choices = choices_of(chunks_of(events));
    assert(told_text(Seq::empty()) + heard_in(choices, "content"@) =~= heard_in(
        choices,
        "content"@,
    ));
    assert(told_thinking(Seq::empty()) + heard_in(choices, "reasoning_content"@) =~= heard_in(
        choices,
        "reasoning_content"@,
    ));
    assert(told_arguments(Seq::empty()) + heard_arguments_in(choices) =~= heard_arguments_in(
        choices,
    ));
}

/// Cutting loses no byte: the complete events and the rest are the buffer,
/// in order; every event ends at its first blank line, and the rest has
/// none.
pub proof fn law_cutting_loses_nothing(buf: Seq<u8>)
    ensures
        joined_bytes(complete_events(buf)) + incomplete_rest(buf) == buf,
        forall|i: int|
            0 <= i < complete_events(buf).len() ==> {
                let event = #[trigger] complete_events(buf)[i];
                &&& event.len() >= 2
                &&& event[event.len() - 1] == 10 && event[event.len() - 2] == 10
                &&& forall|j: int|
                    0 <= j < event.len() - 2 ==> !(#[trigger] event[j] == 10 && event[j + 1] == 10)
            },
        forall|j: int|
            0 <= j < incomplete_rest(buf).len() - 1 ==> !(#[trigger] incomplete_rest(buf)[j] == 10
                && incomplete_rest(buf)[j + 1] == 10),
    decreases buf.len(),
{
    lemma_event_end(buf, 0);
    match event_end(buf, 0) {
        None => {
            assert(joined_bytes(complete_events(buf)) + buf =~= buf);
            assert forall|j: int| 0 <= j < buf.len() - 1 implies !(#[trigger] buf[j] == 10 && buf[j
                + 1] == 10) by {
                assert(!crate::bridge::sse::blank_at(buf, j));
            }
        },
        Some(e) => {
            let first = buf.take(e + 1);
            let rest = buf.skip(e + 1);
            law_cutting_loses_nothing(rest);
            lemma_joined_first(first, complete_events(rest));
            assert(buf =~= first + rest);
            assert((first + joined_bytes(complete_events(rest))) + incomplete_rest(rest)
                =~= first + (joined_bytes(complete_events(rest)) + incomplete_rest(rest)));
            assert forall|j: int| 0 <= j < first.len() - 2 implies !(#[trigger] first[j] == 10
                && first[j + 1] == 10) by {
                assert(!crate::bridge::sse::blank_at(buf, j));
            }
            let events = complete_events(buf);
            assert forall|i: int| 0 <= i < events.len() implies ({
                let event = #[trigger] events[i];
                &&& event.len() >= 2
                &&& event[event.len() - 1] == 10 && event[event.len() - 2] == 10
                &&& forall|j: int|
                    0 <= j < event.len() - 2 ==> !(#[trigger] event[j] == 10 && event[j + 1] == 10)
            }) by {
                if i == 0 {
                    assert(events[0] == first);
                } else {
                    assert(events[i] == complete_events(rest)[i - 1]);
                }
            }
        },
    }
}

proof fn lemma_joined_first(first: Seq<u8>, rest: Seq<Seq<u8>>)
    ensures
        joined_bytes(seq![first] + rest) == first + joined_bytes(rest),
    decreases rest.len(),
{
    let all = seq![first] + rest;
    if rest.len() == 0 {
        assert(all =~= seq![first]);
        assert(all.drop_last() =~= Seq::<Seq<u8>>::empty());
        assert(joined_bytes(all.drop_last()).len() == 0);
        assert(joined_bytes(all) =~= first);
        assert(first + joined_bytes(rest) =~= first);
    } else {
        assert(all.drop_last() =~= seq![first] + rest.drop_last());
        lemma_joined_first(first, rest.drop_last());
        assert(all.last() == rest.last());
        assert(joined_bytes(all) =~= first + joined_bytes(rest));
    }
}

/// The `type` member of a value.
pub open spec fn type_of(v: JsonV) -> Option<Seq<char>> {
    v.get_str("type"@)
}

/// Follows the types of the open blocks through events. A text or thinking
/// block starts only where the last open block is of another type, and a
/// text or thinking delta goes to the last open block, which is of its type.
/// The types of the blocks left open come back, or none where an event
/// breaks this.
pub open spec fn fitting(events: Seq<EventV>, kinds: Seq<Seq<char>>) -> Option<Seq<Seq<char>>>
    decreases events.len(),
{
    if events.len() == 0 {
        Some(kinds)
    } else {
        match fitting(events.drop_last(), kinds) {
            None => None,
            Some(k) => {
                let data = event_data(events.last());
                if type_of(data) == Some("content_block_start"@) {
                    match data.get("content_block"@) {
                        Some(block) => match type_of(block) {
                            Some(t) => if data.get("index"@) == Some(JsonV::Int(k.len() as int))
                                && (t == "tool_use"@ || k.len() == 0 || k.last() != t) {
                                Some(k.push(t))
                            } else {
                                None
                            },
                            None => None,
                        },
                        None => None,
                    }
                } else if type_of(data) == Some("content_block_delta"@) {
                    match data.get("delta"@) {
                        Some(delta) => if type_of(delta) == Some("input_json_delta"@) {
                            Some(k)
                        } else if k.len() > 0 && data.get("index"@) == Some(
                            JsonV::Int(k.len() - 1),
                        ) && ((type_of(delta) == Some("text_delta"@) && k.last() == "text"@) || (
                        type_of(delta) == Some("thinking_delta"@) && k.last() == "thinking"@)) {
                            Some(k)
                        } else {
                            None
                        },
                        None => None,
                    }
                } else if type_of(data) == Some("content_block_stop"@) {
                    if k.len() > 0 && data.get("index"@) == Some(JsonV::Int(k.len() - 1)) {
                        Some(k.drop_last())
                    } else {
                        None
                    }
                } else {
                    Some(k)
                }
            },
        }
    }
}

/// The type of a block of the given kind.
pub open spec fn kind_name(kind: OpenKind) -> Seq<char> {
    match kind {
        OpenKind::Text => "text"@,
        OpenKind::Thinking => "thinking"@,
        OpenKind::Tool => "tool_use"@,
    }
}

/// The types of open blocks.
pub open spec fn kind_names(open: Seq<OpenKind>) -> Seq<Seq<char>> {
    Seq::new(open.len(), |i: int| kind_name(open[i]))
}

/// The names of events and blocks, told apart.
pub proof fn lemma_event_names()
    ensures
        "content_block_start"@ != "content_block_delta"@,
        "content_block_start"@ != "content_block_stop"@,
        "content_block_delta"@ != "content_block_stop"@,
        "content_block_start"@ != "message_start"@,
        "content_block_start"@ != "message_delta"@,
        "content_block_start"@ != "message_stop"@,
        "content_block_delta"@ != "message_start"@,
        "content_block_delta"@ != "message_delta"@,
        "content_block_delta"@ != "message_stop"@,
        "content_block_stop"@ != "message_start"@,
        "content_block_stop"@ != "message_delta"@,
        "content_block_stop"@ != "message_stop"@,
        "text"@ != "thinking"@,
        "text"@ != "tool_use"@,
        "thinking"@ != "tool_use"@,
        "type"@ != "id"@,
        "type"@ != "name"@,
        "type"@ != "input"@,
        "type"@ != "caller"@,
        "type"@ != "signature"@,
        "id"@ != "name"@,
        "id"@ != "input"@,
        "id"@ != "caller"@,
        "name"@ != "input"@,
        "name"@ != "caller"@,
{
    reveal_strlit("content_block_start");
    reveal_strlit("content_block_delta");
    reveal_strlit("content_block_stop");
    reveal_strlit("message_start");
    reveal_strlit("message_delta");
    reveal_strlit("message_stop");
    reveal_strlit("text");
    reveal_strlit("thinking");
    reveal_strlit("tool_use");
    reveal_strlit("type");
    reveal_strlit("id");
    reveal_strlit("name");
    reveal_strlit("input");
    reveal_strlit("caller");
    reveal_strlit("signature");
    assert("content_block_start"@[14] == 's' && "content_block_delta"@[14] == 'd');
    assert("content_block_start"@.len() == 19 && "content_block_stop"@.len() == 18);
    assert("content_block_delta"@.len() == 19);
    assert("message_start"@.len() == 13 && "message_delta"@.len() == 13);
    assert("message_stop"@.len() == 12);
    assert("text"@.len() == 4 && "thinking"@.len() == 8 && "tool_use"@[1] == 'o');
    assert("tool_use"@.len() == 8 && "thinking"@[1] == 'h');
    assert("type"@.len() == 4 && "id"@.len() == 2 && "name"@.len() == 4 && "input"@.len() == 5);
    assert("type"@[0] == 't' && "name"@[0] == 'n');
    assert("caller"@.len() == 6 && "signature"@.len() == 9);
}

/// Whether a run's own events fit, from the blocks that were open before.
spec fn fits(run: RunV, kinds: Seq<Seq<char>>) -> bool {
    fitting(run.out, kinds) == Some(kind_names(run.open))
}

proof fn lemma_open_fits(run: RunV, kind: OpenKind, block: JsonV, kinds: Seq<Seq<char>>)
    requires
        fits(run, kinds),
        type_of(block) == Some(kind_name(kind)),
        kind == OpenKind::Tool || run.open.len() == 0 || run.open.last() != kind,
    ensures
        fits(open_block(run, kind, block), kinds),
{
    lemma_event_keys();
    lemma_event_names();
    let e = EventV::BlockStart { index: run.open.len(), block };
    assert(run.out.push(e).drop_last() =~= run.out);
    let k = kind_names(run.open);
    assert(kind_names(run.open.push(kind)) =~= k.push(kind_name(kind)));
    if run.open.len() > 0 {
        assert(k.last() == kind_name(run.open.last()));
    }
}

proof fn lemma_delta_fits(run: RunV, kind: OpenKind, e: EventV, kinds: Seq<Seq<char>>)
    requires
        fits(run, kinds),
        run.open.len() > 0,
        run.open.last() == kind,
        e matches EventV::BlockDelta { index, kind: k, field, text } && index == run.open.len() - 1
            && field != "type"@ && ((kind == OpenKind::Text && k == "text_delta"@) || (kind
            == OpenKind::Thinking && k == "thinking_delta"@)),
    ensures
        fits(emit(run, e), kinds),
{
    lemma_event_keys();
    lemma_event_names();
    assert(run.out.push(e).drop_last() =~= run.out);
    let k = kind_names(run.open);
    assert(k.last() == kind_name(run.open.last()));
}

proof fn lemma_text_fits(run: RunV, text: Seq<char>, kinds: Seq<Seq<char>>)
    requires
        fits(run, kinds),
    ensures
        fits(text_delta(run, text), kinds),
        fits(thinking_delta(run, text), kinds),
{
    lemma_event_keys();
    lemma_event_names();
    assert(type_of(fresh_text()) == Some("text"@));
    assert(type_of(fresh_thinking()) == Some("thinking"@));
    let r = reuse_block(run, OpenKind::Text, fresh_text());
    if !(run.open.len() > 0 && run.open.last() == OpenKind::Text) {
        lemma_open_fits(run, OpenKind::Text, fresh_text(), kinds);
    }
    lemma_delta_fits(
        r,
        OpenKind::Text,
        EventV::BlockDelta {
            index: (r.open.len() - 1) as nat,
            kind: "text_delta"@,
            field: "text"@,
            text,
        },
        kinds,
    );
    let s = reuse_block(run, OpenKind::Thinking, fresh_thinking());
    if !(run.open.len() > 0 && run.open.last() == OpenKind::Thinking) {
        lemma_open_fits(run, OpenKind::Thinking, fresh_thinking(), kinds);
    }
    lemma_delta_fits(
        s,
        OpenKind::Thinking,
        EventV::BlockDelta {
            index: (s.open.len() - 1) as nat,
            kind: "thinking_delta"@,
            field: "thinking"@,
            text,
        },
        kinds,
    );
}

proof fn lemma_call_fits(run: RunV, call: JsonV, meta: StreamMetaV, kinds: Seq<Seq<char>>)
    requires
        fits(run, kinds),
    ensures
        fits(call_step(run, call, meta), kinds),
{
    lemma_event_keys();
    lemma_event_names();
    match call.get("function"@) {
        Some(function) => {
            let block = fresh_tool(call, function, meta);
            assert(type_of(block) == Some("tool_use"@));
            lemma_open_fits(run, OpenKind::Tool, block, kinds);
            let r = tool_block(run, call, function, meta);
            assert(fits(r, kinds));
            match non_empty(function.get_str("arguments"@)) {
                Some(arguments) => {
                    let e = EventV::BlockDelta {
                        index: r.slots[call_index(call)],
                        kind: "input_json_delta"@,
                        field: "partial_json"@,
                        text: arguments,
                    };
                    assert(r.out.push(e).drop_last() =~= r.out);
                },
                None => {},
            }
        },
        None => {},
    }
}

proof fn lemma_calls_fit(run: RunV, calls: Seq<JsonV>, meta: StreamMetaV, kinds: Seq<Seq<char>>)
    requires
        fits(run, kinds),
    ensures
        fits(calls_run(run, calls, meta), kinds),
    decreases calls.len(),
{
    if calls.len() > 0 {
        lemma_calls_fit(run, calls.drop_last(), meta, kinds);
        lemma_call_fits(calls_run(run, calls.drop_last(), meta), calls.last(), meta, kinds);
    }
}

proof fn lemma_fitting_append(first: Seq<EventV>, second: Seq<EventV>, kinds: Seq<Seq<char>>)
    requires
        fitting(first, kinds) is Some,
    ensures
        fitting(first + second, kinds) == fitting(second, fitting(first, kinds)->0),
    decreases second.len(),
{
    if second.len() == 0 {
        assert(first + second =~= first);
    } else {
        assert((first + second).drop_last() =~= first + second.drop_last());
        assert((first + second).last() == second.last());
        lemma_fitting_append(first, second.drop_last(), kinds);
    }
}

proof fn lemma_stops_fit(kinds: Seq<Seq<char>>)
    ensures
        fitting(stops(kinds.len()), kinds) == Some(Seq::<Seq<char>>::empty()),
    decreases kinds.len(),
{
    if kinds.len() > 0 {
        lemma_event_keys();
        lemma_event_names();
        let n = (kinds.len() - 1) as nat;
        let first = seq![EventV::BlockStop { index: n }];
        assert(first.drop_last() =~= Seq::<EventV>::empty());
        assert(fitting(first.drop_last(), kinds) == Some(kinds));
        assert(fitting(first, kinds) == Some(kinds.drop_last()));
        lemma_stops_fit(kinds.drop_last());
        lemma_fitting_append(first, stops(n), kinds);
    } else {
        assert(kinds =~= Seq::<Seq<char>>::empty());
    }
}

proof fn lemma_close_fits(run: RunV, kinds: Seq<Seq<char>>)
    requires
        fits(run, kinds),
    ensures
        fits(close_all(run), kinds),
{
    lemma_stops_fit(kind_names(run.open));
    lemma_fitting_append(run.out, stops(run.open.len()), kinds);
    assert(kind_names(Seq::empty()) =~= Seq::<Seq<char>>::empty());
}

proof fn lemma_choices_fit(
    run: RunV,
    choices: Seq<JsonV>,
    meta: StreamMetaV,
    kinds: Seq<Seq<char>>,
)
    requires
        fits(run, kinds),
    ensures
        fits(choices_run(run, choices, meta), kinds),
    decreases choices.len(),
{
    if choices.len() > 0 {
        lemma_choices_fit(run, choices.drop_last(), meta, kinds);
        let before = choices_run(run, choices.drop_last(), meta);
        let choice = choices.last();
        let said = match delta_text(choice, "content"@) {
            Some(t) => {
                lemma_text_fits(before, t, kinds);
                text_delta(before, t)
            },
            None => before,
        };
        let thought = match delta_text(choice, "reasoning_content"@) {
            Some(t) => {
                lemma_text_fits(said, t, kinds);
                thinking_delta(said, t)
            },
            None => said,
        };
        lemma_calls_fit(thought, delta_calls(choice), meta, kinds);
        let called = calls_run(thought, delta_calls(choice), meta);
        match non_empty(choice.get_str("finish_reason"@)) {
            Some(reason) => {
                lemma_close_fits(
                    RunV { finish_reason: Some(stop_vocabulary(reason)), ..called },
                    kinds,
                );
            },
            None => {},
        }
    }
}

proof fn lemma_events_fit(
    run: RunV,
    events: Seq<Seq<u8>>,
    meta: StreamMetaV,
    kinds: Seq<Seq<char>>,
)
    requires
        fits(run, kinds),
    ensures
        fits(events_run(run, events, meta), kinds),
    decreases events.len(),
{
    if events.len() > 0 {
        lemma_events_fit(run, events.drop_last(), meta, kinds);
        let before = events_run(run, events.drop_last(), meta);
        match event_value(events.last()) {
            Some(v) => {
                lemma_event_keys();
                lemma_event_names();
                let seen = observe_usage(before, v);
                let e = EventV::MessageStart { model: crate::bridge::sse::start_model(v, meta) };
                assert(seen.out.push(e).drop_last() =~= seen.out);
                assert(fits(begin(seen, v, meta), kinds));
                lemma_choices_fit(begin(seen, v, meta), v.list("choices"@), meta, kinds);
            },
            None => {},
        }
    }
}

/// Every delta goes where it belongs: a run of text deltas shares one text
/// block, a run of thinking deltas one thinking block, a change of kind
/// starts a new block at the next index, and blocks stop from the last.
pub proof fn law_deltas_fit_their_blocks(t: TranslatorV, chunk: Seq<u8>)
    ensures
        fitting(pushed(t, chunk).run.out, kind_names(t.run.open)) == Some(
            kind_names(pushed(t, chunk).run.open),
        ),
{
    assert(fits(quiet(t.run), kind_names(t.run.open)));
    lemma_events_fit(
        quiet(t.run),
        complete_events(t.pending + chunk),
        t.meta,
        kind_names(t.run.open),
    );
}

/// The last count under `key` in the usage of chunks, or the one before.
pub open spec fn last_count(chunks: Seq<JsonV>, key: Seq<char>, before: u64) -> u64
    decreases chunks.len(),
{
    if chunks.len() == 0 {
        before
    } else {
        match chunks.last().get("usage"@) {
            Some(usage) => match usage.get_u64(key) {
                Some(n) => n,
                None => last_count(chunks.drop_last(), key, before),
            },
            None => last_count(chunks.drop_last(), key, before),
        }
    }
}

/// The last finish reason among choices, or the one before.
pub open spec fn last_reason(choices: Seq<JsonV>, before: Option<Seq<char>>) -> Option<Seq<char>>
    decreases choices.len(),
{
    if choices.len() == 0 {
        before
    } else {
        match choices.last().get_str("finish_reason"@) {
            Some(reason) => if reason.len() == 0 {
                last_reason(choices.drop_last(), before)
            } else if reason == "length"@ {
                Some("max_tokens"@)
            } else if reason == "tool_calls"@ {
                Some("tool_use"@)
            } else if reason == "stop"@ {
                Some("end_turn"@)
            } else {
                Some(reason)
            },
            None => last_reason(choices.drop_last(), before),
        }
    }
}

proof fn lemma_calls_keep(run: RunV, calls: Seq<JsonV>, meta: StreamMetaV)
    ensures
        calls_run(run, calls, meta).finish_reason == run.finish_reason,
        calls_run(run, calls, meta).input_tokens == run.input_tokens,
        calls_run(run, calls, meta).output_tokens == run.output_tokens,
    decreases calls.len(),
{
    if calls.len() > 0 {
        lemma_calls_keep(run, calls.drop_last(), meta);
    }
}

proof fn lemma_choices_reason(run: RunV, choices: Seq<JsonV>, meta: StreamMetaV)
    ensures
        choices_run(run, choices, meta).finish_reason == last_reason(choices, run.finish_reason),
        choices_run(run, choices, meta).input_tokens == run.input_tokens,
        choices_run(run, choices, meta).output_tokens == run.output_tokens,
    decreases choices.len(),
{
    if choices.len() > 0 {
        lemma_choices_reason(run, choices.drop_last(), meta);
        let before = choices_run(run, choices.drop_last(), meta);
        let choice = choices.last();
        let said = match delta_text(choice, "content"@) {
            Some(t) => text_delta(before, t),
            None => before,
        };
        let thought = match delta_text(choice, "reasoning_content"@) {
            Some(t) => thinking_delta(said, t),
            None => said,
        };
        lemma_calls_keep(thought, delta_calls(choice), meta);
    }
}

proof fn lemma_reason_append(first: Seq<JsonV>, second: Seq<JsonV>, before: Option<Seq<char>>)
    ensures
        last_reason(first + second, before) == last_reason(second, last_reason(first, before)),
    decreases second.len(),
{
    if second.len() == 0 {
        assert(first + second =~= first);
    } else {
        assert((first + second).drop_last() =~= first + second.drop_last());
        assert((first + second).last() == second.last());
        lemma_reason_append(first, second.drop_last(), before);
    }
}

proof fn lemma_events_counts(run: RunV, events: Seq<Seq<u8>>, meta: StreamMetaV)
    ensures
        ({
            let after = events_run(run, events, meta);
            let chunks = chunks_of(events);
            &&& after.input_tokens == last_count(chunks, "prompt_tokens"@, run.input_tokens)
            &&& after.output_tokens == last_count(
                chunks,
                "completion_tokens"@,
                run.output_tokens,
            )
            &&& after.finish_reason == last_reason(choices_of(chunks), run.finish_reason)
        }),
    decreases events.len(),
{
    if events.len() > 0 {
        let head = events.drop_last();
        lemma_events_counts(run, head, meta);
        match event_value(events.last()) {
            Some(v) => {
                let seen = observe_usage(events_run(run, head, meta), v);
                lemma_choices_reason(begin(seen, v, meta), v.list("choices"@), meta);
                assert(chunks_of(head).push(v).drop_last() =~= chunks_of(head));
                lemma_reason_append(
                    choices_of(chunks_of(head)),
                    v.list("choices"@),
                    run.finish_reason,
                );
                if v.list("choices"@).len() == 0 {
                    assert(choices_of(chunks_of(head)) + v.list("choices"@) =~= choices_of(
                        chunks_of(head),
                    ));
                }
            },
            None => {},
        }
    }
}

/// The counts and the reason a stream remembers are the last that upstream
/// named, those of the chunk of bytes at hand or those before it.
pub proof fn law_streams_remember_the_last_counts(t: TranslatorV, chunk: Seq<u8>)
    ensures
        ({
            let after = pushed(t, chunk).run;
            let chunks = chunks_of(complete_events(t.pending + chunk));
            &&& after.input_tokens == last_count(chunks, "prompt_tokens"@, t.run.input_tokens)
            &&& after.output_tokens == last_count(
                chunks,
                "completion_tokens"@,
                t.run.output_tokens,
            )
            &&& after.finish_reason == last_reason(choices_of(chunks), t.run.finish_reason)
        }),
{
    lemma_events_counts(quiet(t.run), complete_events(t.pending + chunk), t.meta);
}

/// A started message ends with its reason and counts, once all its blocks
/// have stopped, and then with `message_stop`.
pub proof fn law_streams_end_with_reason_and_counts(t: TranslatorV)
    requires
        t.committed,
        !t.finishing,
        t.run.started,
    ensures
        ({
            let out = finished(t).run.out;
            let n = t.run.open.len() as int;
            &&& out.len() == n + 2
            &&& forall|i: int|
                0 <= i < n ==> type_of(event_data(#[trigger] out[i])) == Some(
                    "content_block_stop"@,
                ) && event_data(out[i]).get("index"@) == Some(JsonV::Int(n - 1 - i))
            &&& type_of(event_data(out[n])) == Some("message_delta"@)
            &&& event_data(out[n]).get("delta"@) is Some
            &&& event_data(out[n]).get("delta"@)->0.get("stop_reason"@) == match t.run.finish_reason {
                Some(reason) => Some(JsonV::Str(reason)),
                None => Some(JsonV::Null),
            }
            &&& event_data(out[n]).get("usage"@) == Some(
                JsonV::Object(
                    map![
                        "input_tokens"@ => JsonV::Int(t.run.input_tokens as int),
                        "output_tokens"@ => JsonV::Int(t.run.output_tokens as int),
                    ],
                ),
            )
            &&& type_of(event_data(out[n + 1])) == Some("message_stop"@)
        }),
{
    lemma_event_keys();
    lemma_event_names();
    let n = t.run.open.len();
    lemma_stops(n);
    let out = finished(t).run.out;
    assert(Seq::<EventV>::empty() + stops(n) =~= stops(n));
    assert forall|i: int| 0 <= i < n implies type_of(event_data(#[trigger] out[i])) == Some(
        "content_block_stop"@,
    ) && event_data(out[i]).get("index"@) == Some(JsonV::Int(n - 1 - i)) by {
        assert(out[i] == stops(n)[i]);
    }
    let usage = event_data(out[n as int]).get("usage"@);
    assert(usage is Some);
    assert(usage->0->Object_0 =~= map![
        "input_tokens"@ => JsonV::Int(t.run.input_tokens as int),
        "output_tokens"@ => JsonV::Int(t.run.output_tokens as int),
    ]);
}

proof fn lemma_stops(n: nat)
    ensures
        stops(n).len() == n,
        forall|i: int|
            0 <= i < n ==> #[trigger] stops(n)[i] == (EventV::BlockStop {
                index: (n - 1 - i) as nat,
            }),
    decreases n,
{
    if n > 0 {
        lemma_stops((n - 1) as nat);
        assert forall|i: int| 0 <= i < n implies #[trigger] stops(n)[i] == (EventV::BlockStop {
            index: (n - 1 - i) as nat,
        }) by {
            if i > 0 {
                assert(stops(n)[i] == stops((n - 1) as nat)[i - 1]);
            }
        }
    }
}

/// An event's bytes name its type and print its data, on a line each, and
/// end with a blank line.
pub proof fn law_events_are_framed(e: EventV)
    ensures
        type_of(event_data(e)) is Some,
        rendered(e) == encode_utf8(
            "event: "@ + type_of(event_data(e))->0 + "\ndata: "@ + json_text(event_data(e))
                + "\n\n"@,
        ),
{
    lemma_event_keys();
}

/// A stream starts with nothing said, open, counted or kept.
pub proof fn law_streams_start_silent(meta: StreamMetaV)
    ensures
        ({
            let t = fresh_translator(meta);
            &&& t.meta == meta
            &&& t.pending.len() == 0 && t.retained.len() == 0
            &&& !t.committed && !t.finishing && !t.run.started
            &&& t.run.open.len() == 0 && t.run.out.len() == 0
            &&& t.run.slots.dom() == Set::<u64>::empty()
            &&& t.run.input_tokens == 0 && t.run.output_tokens == 0
            &&& t.run.finish_reason is None
        }),
{
    assert(fresh_translator(meta).run.slots.dom() =~= Set::<u64>::empty());
}

/// A stream that fails is told in an event of its own, which names the code
/// and the message.
pub proof fn law_stream_errors_name_themselves(code: Seq<char>, message: Seq<char>)
    ensures
        exists|e: JsonV|
            error_frame(code, message) == encode_utf8(
                "event: error\ndata: "@ + #[trigger] json_text(e) + "\n\n"@,
            ) && type_of(e) == Some("error"@) && e.get("error"@) is Some && type_of(
                e.get("error"@)->0,
            ) == Some("upstream_error"@) && e.get("error"@)->0.get_str("code"@) == Some(code)
                && e.get("error"@)->0.get_str("message"@) == Some(message),
{
    reveal_strlit("type");
    reveal_strlit("error");
    reveal_strlit("code");
    reveal_strlit("message");
    assert("type"@.len() == 4 && "error"@.len() == 5 && "code"@.len() == 4);
    assert("message"@.len() == 7 && "type"@[0] == 't' && "code"@[0] == 'c');
    let e = empty_object().with("type"@, JsonV::Str("error"@)).with(
        "error"@,
        empty_object().with("type"@, JsonV::Str("upstream_error"@)).with(
            "code"@,
            JsonV::Str(code),
        ).with("message"@, JsonV::Str(message)),
    );
    reveal_strlit("event: ");
    reveal_strlit("\ndata: ");
    reveal_strlit("event: error\ndata: ");
    assert("event: "@ + "error"@ + "\ndata: "@ =~= "event: error\ndata: "@);
    assert(error_frame(code, message) == encode_utf8(
        "event: error\ndata: "@ + json_text(e) + "\n\n"@,
    ));
}

}
