//! What holds of every translated stream: chunk boundaries do not matter,
//! comments and malformed data never show, the message starts once and its
//! blocks nest, the end comes once, and a stream without events is replayed.
use crate::bridge::sse::{
    all_rendered, begin, blank_at, call_index, call_step, calls_run, choice_step, choices_run,
    close_all, complete_events, data_fields, delta_calls, delta_text, emit, event_data, event_end,
    event_payload, event_step, event_value, events_run, finish_output, finished, fresh_text,
    fresh_thinking, fresh_tool, fresh_translator, incomplete_rest, lemma_event_end,
    lemma_started_stays, observe_usage,
    open_block, pushed, quiet, reuse_block, sound, start_model, stops, text_delta, thinking_delta, tool_block,
    EventV, OpenKind, RunV, StreamMetaV, TranslatorV, RETAIN_CAP,
};
use crate::bridge::stream_content_laws::{chunks_of, lemma_event_keys};
use crate::buffers::joined_bytes;
use crate::codec::json_of_text;
use crate::json::JsonV;
use crate::text::{joined, lines_of, non_empty, trimmed, trimmed_start};
use crate::text_laws::{law_typed_lines_are_read_back, one_line, typed};
use vstd::prelude::*;
use vstd::utf8::{decode_utf8, encode_utf8, valid_utf8};

verus! {

/// The run with `earlier` events before its own.
pub open spec fn after(earlier: Seq<EventV>, run: RunV) -> RunV {
    RunV { out: earlier + run.out, ..run }
}

proof fn lemma_emit_after(p: Seq<EventV>, run: RunV, e: EventV)
    ensures
        emit(after(p, run), e) == after(p, emit(run, e)),
{
    assert((p + run.out).push(e) == p + run.out.push(e));
}

proof fn lemma_open_after(p: Seq<EventV>, run: RunV, kind: OpenKind, block: JsonV)
    ensures
        open_block(after(p, run), kind, block) == after(p, open_block(run, kind, block)),
{
    lemma_emit_after(
        p,
        RunV { open: run.open.push(kind), ..run },
        EventV::BlockStart { index: run.open.len(), block },
    );
}

proof fn lemma_text_after(p: Seq<EventV>, run: RunV, text: Seq<char>)
    ensures
        text_delta(after(p, run), text) == after(p, text_delta(run, text)),
        thinking_delta(after(p, run), text) == after(p, thinking_delta(run, text)),
{
    lemma_open_after(p, run, OpenKind::Text, fresh_text());
    lemma_open_after(p, run, OpenKind::Thinking, fresh_thinking());
    let r = reuse_block(run, OpenKind::Text, fresh_text());
    lemma_emit_after(
        p,
        r,
        EventV::BlockDelta {
            index: (r.open.len() - 1) as nat,
            kind: "text_delta"@,
            field: "text"@,
            text,
        },
    );
    let r = reuse_block(run, OpenKind::Thinking, fresh_thinking());
    lemma_emit_after(
        p,
        r,
        EventV::BlockDelta {
            index: (r.open.len() - 1) as nat,
            kind: "thinking_delta"@,
            field: "thinking"@,
            text,
        },
    );
}

proof fn lemma_call_after(p: Seq<EventV>, run: RunV, call: JsonV, meta: StreamMetaV)
    ensures
        call_step(after(p, run), call, meta) == after(p, call_step(run, call, meta)),
{
    match call.get("function"@) {
        None => {},
        Some(function) => {
            lemma_open_after(p, run, OpenKind::Tool, fresh_tool(call, function, meta));
            let r = tool_block(run, call, function, meta);
            assert(tool_block(after(p, run), call, function, meta) == after(p, r));
            match non_empty(function.get_str("arguments"@)) {
                Some(arguments) => {
                    lemma_emit_after(
                        p,
                        r,
                        EventV::BlockDelta {
                            index: r.slots[call_index(call)],
                            kind: "input_json_delta"@,
                            field: "partial_json"@,
                            text: arguments,
                        },
                    );
                },
                None => {},
            }
        },
    }
}

proof fn lemma_calls_after(p: Seq<EventV>, run: RunV, calls: Seq<JsonV>, meta: StreamMetaV)
    ensures
        calls_run(after(p, run), calls, meta) == after(p, calls_run(run, calls, meta)),
    decreases calls.len(),
{
    if calls.len() > 0 {
        lemma_calls_after(p, run, calls.drop_last(), meta);
        lemma_call_after(p, calls_run(run, calls.drop_last(), meta), calls.last(), meta);
    }
}

proof fn lemma_close_after(p: Seq<EventV>, run: RunV)
    ensures
        close_all(after(p, run)) == after(p, close_all(run)),
{
    assert((p + run.out) + stops(run.open.len()) == p + (run.out + stops(run.open.len())));
}

proof fn lemma_choice_after(p: Seq<EventV>, run: RunV, choice: JsonV, meta: StreamMetaV)
    ensures
        choice_step(after(p, run), choice, meta) == after(p, choice_step(run, choice, meta)),
{
    let said = match delta_text(choice, "content"@) {
        Some(t) => {
            lemma_text_after(p, run, t);
            text_delta(run, t)
        },
        None => run,
    };
    let thought = match delta_text(choice, "reasoning_content"@) {
        Some(t) => {
            lemma_text_after(p, said, t);
            thinking_delta(said, t)
        },
        None => said,
    };
    lemma_calls_after(p, thought, delta_calls(choice), meta);
    let called = calls_run(thought, delta_calls(choice), meta);
    match non_empty(choice.get_str("finish_reason"@)) {
        Some(reason) => {
            lemma_close_after(
                p,
                RunV {
                    finish_reason: Some(crate::bridge::sse::stop_vocabulary(reason)),
                    ..called
                },
            );
        },
        None => {},
    }
}

proof fn lemma_choices_after(p: Seq<EventV>, run: RunV, choices: Seq<JsonV>, meta: StreamMetaV)
    ensures
        choices_run(after(p, run), choices, meta) == after(p, choices_run(run, choices, meta)),
    decreases choices.len(),
{
    if choices.len() > 0 {
        lemma_choices_after(p, run, choices.drop_last(), meta);
        lemma_choice_after(p, choices_run(run, choices.drop_last(), meta), choices.last(), meta);
    }
}

proof fn lemma_event_after(p: Seq<EventV>, run: RunV, event: Seq<u8>, meta: StreamMetaV)
    ensures
        event_step(after(p, run), event, meta) == after(p, event_step(run, event, meta)),
{
    match event_value(event) {
        Some(v) => {
            let seen = observe_usage(run, v);
            assert(observe_usage(after(p, run), v) == after(p, seen));
            lemma_emit_after(
                p,
                RunV { started: true, ..seen },
                EventV::MessageStart { model: crate::bridge::sse::start_model(v, meta) },
            );
            assert(begin(after(p, seen), v, meta) == after(p, begin(seen, v, meta)));
            lemma_choices_after(p, begin(seen, v, meta), v.list("choices"@), meta);
        },
        None => {},
    }
}

/// Events that came before do not change what follows.
proof fn lemma_events_after(p: Seq<EventV>, run: RunV, events: Seq<Seq<u8>>, meta: StreamMetaV)
    ensures
        events_run(after(p, run), events, meta) == after(p, events_run(run, events, meta)),
    decreases events.len(),
{
    if events.len() > 0 {
        lemma_events_after(p, run, events.drop_last(), meta);
        lemma_event_after(p, events_run(run, events.drop_last(), meta), events.last(), meta);
    }
}

/// Events run one after the other.
proof fn lemma_events_append(
    run: RunV,
    first: Seq<Seq<u8>>,
    second: Seq<Seq<u8>>,
    meta: StreamMetaV,
)
    ensures
        events_run(run, first + second, meta) == events_run(
            events_run(run, first, meta),
            second,
            meta,
        ),
    decreases second.len(),
{
    if second.len() == 0 {
        assert(first + second == first);
    } else {
        assert((first + second).drop_last() == first + second.drop_last());
        lemma_events_append(run, first, second.drop_last(), meta);
    }
}

/// Bytes that follow do not move the end of a complete event.
proof fn lemma_end_stays(a: Seq<u8>, b: Seq<u8>, e: int)
    requires
        event_end(a, 0) == Some(e),
    ensures
        event_end(a + b, 0) == Some(e),
{
    lemma_event_end(a, 0);
    lemma_event_end(a + b, 0);
    assert(blank_at(a + b, e - 1));
    match event_end(a + b, 0) {
        Some(f) => {
            if f < e {
                assert(blank_at(a + b, f - 1));
                assert(blank_at(a, f - 1));
            }
            if f > e {
                assert(!blank_at(a + b, e - 1));
            }
        },
        None => {},
    }
}

/// Cutting bytes into events does not depend on where they are split.
pub proof fn law_events_of_split_bytes(a: Seq<u8>, b: Seq<u8>)
    ensures
        complete_events(a + b) == complete_events(a) + complete_events(incomplete_rest(a) + b),
        incomplete_rest(a + b) == incomplete_rest(incomplete_rest(a) + b),
    decreases a.len(),
{
    match event_end(a, 0) {
        None => {
            assert(Seq::<Seq<u8>>::empty() + complete_events(a + b) == complete_events(a + b));
        },
        Some(e) => {
            lemma_event_end(a, 0);
            lemma_end_stays(a, b, e);
            let rest = a.skip(e + 1);
            assert((a + b).skip(e + 1) == rest + b);
            assert((a + b).take(e + 1) == a.take(e + 1));
            law_events_of_split_bytes(rest, b);
            let first = seq![a.take(e + 1)];
            assert(first + (complete_events(rest) + complete_events(incomplete_rest(rest) + b)) == (
            first + complete_events(rest)) + complete_events(incomplete_rest(rest) + b));
        },
    }
}

/// Chunk boundaries do not matter: two chunks in a row emit what the two in
/// one emit, and leave the translator in the same state, the chunks kept
/// for replay aside.
pub proof fn law_chunk_boundaries_do_not_matter(t: TranslatorV, a: Seq<u8>, b: Seq<u8>)
    ensures
        ({
            let one = pushed(t, a + b);
            let first = pushed(t, a);
            let second = pushed(first, b);
            &&& one.run.out == first.run.out + second.run.out
            &&& quiet(one.run) == quiet(second.run)
            &&& one.pending == second.pending
            &&& one.committed == second.committed
            &&& one.finishing == second.finishing
            &&& one.meta == second.meta
        }),
{
    let buf = t.pending + a;
    assert(t.pending + (a + b) == buf + b);
    law_events_of_split_bytes(buf, b);
    let start = quiet(t.run);
    let mid = events_run(start, complete_events(buf), t.meta);
    let tail = complete_events(incomplete_rest(buf) + b);
    lemma_events_append(start, complete_events(buf), tail, t.meta);
    assert(after(mid.out, quiet(mid)) == mid) by {
        assert(mid.out + Seq::<EventV>::empty() == mid.out);
    }
    lemma_events_after(mid.out, quiet(mid), tail, t.meta);
    lemma_started_stays(quiet(mid), tail, t.meta);
    lemma_started_stays(start, complete_events(buf), t.meta);
}

/// Only the first end of a stream yields anything.
pub proof fn law_finish_yields_once(t: TranslatorV)
    requires
        sound(t),
    ensures
        finish_output(finished(t)) == Seq::<Seq<u8>>::empty(),
{
    let again = finished(finished(t)).run.out;
    if !t.committed {
        assert(stops(0) == Seq::<EventV>::empty());
        assert(Seq::<EventV>::empty() + stops(0) == Seq::<EventV>::empty());
    }
    assert(again == Seq::<EventV>::empty());
    assert(all_rendered(again) == Seq::<Seq<u8>>::empty());
}

/// A translator after a list of chunks.
pub open spec fn pushed_all(t: TranslatorV, chunks: Seq<Seq<u8>>) -> TranslatorV
    decreases chunks.len(),
{
    if chunks.len() == 0 {
        t
    } else {
        pushed(pushed_all(t, chunks.drop_last()), chunks.last())
    }
}

/// A stream that never commits to an event is replayed byte for byte, as
/// long as its chunks before the last stay below the retention cap.
pub proof fn law_uncommitted_stream_is_replayed(meta: StreamMetaV, chunks: Seq<Seq<u8>>)
    requires
        !pushed_all(fresh_translator(meta), chunks).committed,
        chunks.len() > 0 ==> joined_bytes(chunks.drop_last()).len() < RETAIN_CAP,
    ensures
        finish_output(pushed_all(fresh_translator(meta), chunks)) == chunks,
    decreases chunks.len(),
{
    let t = fresh_translator(meta);
    if chunks.len() > 0 {
        let head = chunks.drop_last();
        let before = pushed_all(t, head);
        assert(!before.committed);
        if head.len() > 0 {
            assert(joined_bytes(head) == joined_bytes(head.drop_last()) + head.last());
        }
        law_uncommitted_stream_is_replayed(meta, head);
        assert(before.retained == head);
        assert(head.push(chunks.last()) == chunks);
    }
}

/// The bytes kept for replay stay bounded: a chunk is kept only while those
/// before it are below the cap.
pub proof fn law_retention_is_bounded(t: TranslatorV, chunk: Seq<u8>)
    ensures
        joined_bytes(pushed(t, chunk).retained).len() <= joined_bytes(t.retained).len()
            || joined_bytes(pushed(t, chunk).retained).len() < RETAIN_CAP + chunk.len(),
        pushed(t, chunk).committed ==> pushed(t, chunk).retained.len() == 0,
{
    let kept = t.retained.push(chunk);
    assert(kept.drop_last() == t.retained);
}

/// Whether a line is empty or a comment.
pub open spec fn silent_line(line: Seq<char>) -> bool {
    line.len() == 0 || line[0] == ':'
}

proof fn lemma_silent_fields(ls: Seq<Seq<char>>)
    requires
        forall|i: int| 0 <= i < ls.len() ==> silent_line(#[trigger] ls[i]),
    ensures
        data_fields(ls).len() == 0,
    decreases ls.len(),
{
    if ls.len() > 0 {
        lemma_silent_fields(ls.drop_last());
        reveal_strlit("data:");
        assert(silent_line(ls[ls.len() - 1]));
        if "data:"@.is_prefix_of(ls.last()) {
            assert(ls.last()[0] == "data:"@[0]);
        }
    }
}

/// Comments never reach the client: an event of comments and empty lines
/// alone changes nothing and emits nothing.
pub proof fn law_comments_are_dropped(run: RunV, event: Seq<u8>, meta: StreamMetaV)
    requires
        valid_utf8(event),
        forall|i: int|
            0 <= i < lines_of(decode_utf8(event)).len() ==> silent_line(
                #[trigger] lines_of(decode_utf8(event))[i],
            ),
    ensures
        event_step(run, event, meta) == run,
{
    lemma_silent_fields(lines_of(decode_utf8(event)));
    assert(joined(data_fields(lines_of(decode_utf8(event))), "\n"@).len() == 0);
}

/// Data that is no JSON, and bytes that are no text, change nothing and
/// emit nothing.
pub proof fn law_malformed_events_are_dropped(run: RunV, event: Seq<u8>, meta: StreamMetaV)
    requires
        !valid_utf8(event) || crate::codec::json_of_text(event_payload(decode_utf8(event))) is None,
    ensures
        event_step(run, event, meta) == run,
{
}

/// Follows the block starts and stops among events: each start opens the
/// next content index, each stop closes the last open one. The number of
/// open blocks comes back, or none where an event breaks the nesting.
pub open spec fn nesting(events: Seq<EventV>, depth: nat) -> Option<nat>
    decreases events.len(),
{
    if events.len() == 0 {
        Some(depth)
    } else {
        match nesting(events.drop_last(), depth) {
            None => None,
            Some(d) => match events.last() {
                EventV::BlockStart { index, .. } => if index == d {
                    Some(d + 1)
                } else {
                    None
                },
                EventV::BlockStop { index } => if d > 0 && index == d - 1 {
                    Some((d - 1) as nat)
                } else {
                    None
                },
                _ => Some(d),
            },
        }
    }
}

/// The run's own events nest, and end with its open blocks.
pub open spec fn nested(run: RunV, depth: nat) -> bool {
    nesting(run.out, depth) == Some(run.open.len())
}

proof fn lemma_emit_nested(run: RunV, e: EventV, depth: nat)
    requires
        nesting(run.out, depth) is Some,
        !(e is BlockStart),
        !(e is BlockStop),
    ensures
        nesting(emit(run, e).out, depth) == nesting(run.out, depth),
{
    assert(run.out.push(e).drop_last() == run.out);
}

proof fn lemma_open_nested(run: RunV, kind: OpenKind, block: JsonV, depth: nat)
    requires
        nested(run, depth),
    ensures
        nested(open_block(run, kind, block), depth),
{
    let e = EventV::BlockStart { index: run.open.len(), block };
    assert(run.out.push(e).drop_last() == run.out);
}

proof fn lemma_text_nested(run: RunV, text: Seq<char>, depth: nat)
    requires
        nested(run, depth),
    ensures
        nested(text_delta(run, text), depth),
        nested(thinking_delta(run, text), depth),
{
    lemma_open_nested(run, OpenKind::Text, fresh_text(), depth);
    lemma_open_nested(run, OpenKind::Thinking, fresh_thinking(), depth);
    let r = reuse_block(run, OpenKind::Text, fresh_text());
    lemma_emit_nested(
        r,
        EventV::BlockDelta {
            index: (r.open.len() - 1) as nat,
            kind: "text_delta"@,
            field: "text"@,
            text,
        },
        depth,
    );
    let r = reuse_block(run, OpenKind::Thinking, fresh_thinking());
    lemma_emit_nested(
        r,
        EventV::BlockDelta {
            index: (r.open.len() - 1) as nat,
            kind: "thinking_delta"@,
            field: "thinking"@,
            text,
        },
        depth,
    );
}

proof fn lemma_calls_nested(run: RunV, calls: Seq<JsonV>, meta: StreamMetaV, depth: nat)
    requires
        nested(run, depth),
    ensures
        nested(calls_run(run, calls, meta), depth),
    decreases calls.len(),
{
    if calls.len() > 0 {
        lemma_calls_nested(run, calls.drop_last(), meta, depth);
        let before = calls_run(run, calls.drop_last(), meta);
        let call = calls.last();
        match call.get("function"@) {
            None => {},
            Some(function) => {
                lemma_open_nested(
                    before,
                    OpenKind::Tool,
                    fresh_tool(call, function, meta),
                    depth,
                );
                let r = tool_block(before, call, function, meta);
                match non_empty(function.get_str("arguments"@)) {
                    Some(arguments) => {
                        lemma_emit_nested(
                            r,
                            EventV::BlockDelta {
                                index: r.slots[call_index(call)],
                                kind: "input_json_delta"@,
                                field: "partial_json"@,
                                text: arguments,
                            },
                            depth,
                        );
                    },
                    None => {},
                }
            },
        }
    }
}

proof fn lemma_nesting_append(first: Seq<EventV>, second: Seq<EventV>, depth: nat)
    requires
        nesting(first, depth) is Some,
    ensures
        nesting(first + second, depth) == nesting(second, nesting(first, depth)->0),
    decreases second.len(),
{
    if second.len() == 0 {
        assert(first + second == first);
    } else {
        assert((first + second).drop_last() == first + second.drop_last());
        lemma_nesting_append(first, second.drop_last(), depth);
    }
}

proof fn lemma_stops_nested(n: nat)
    ensures
        nesting(stops(n), n) == Some(0nat),
    decreases n,
{
    if n > 0 {
        let first = seq![EventV::BlockStop { index: (n - 1) as nat }];
        assert(first.drop_last() == Seq::<EventV>::empty());
        assert(nesting(first.drop_last(), n) == Some(n));
        assert(nesting(first, n) == Some((n - 1) as nat));
        lemma_stops_nested((n - 1) as nat);
        lemma_nesting_append(first, stops((n - 1) as nat), n);
    }
}

proof fn lemma_close_nested(run: RunV, depth: nat)
    requires
        nested(run, depth),
    ensures
        nested(close_all(run), depth),
{
    lemma_stops_nested(run.open.len());
    lemma_nesting_append(run.out, stops(run.open.len()), depth);
}

proof fn lemma_choices_nested(run: RunV, choices: Seq<JsonV>, meta: StreamMetaV, depth: nat)
    requires
        nested(run, depth),
    ensures
        nested(choices_run(run, choices, meta), depth),
    decreases choices.len(),
{
    if choices.len() > 0 {
        lemma_choices_nested(run, choices.drop_last(), meta, depth);
        let before = choices_run(run, choices.drop_last(), meta);
        let choice = choices.last();
        let said = match delta_text(choice, "content"@) {
            Some(t) => {
                lemma_text_nested(before, t, depth);
                text_delta(before, t)
            },
            None => before,
        };
        let thought = match delta_text(choice, "reasoning_content"@) {
            Some(t) => {
                lemma_text_nested(said, t, depth);
                thinking_delta(said, t)
            },
            None => said,
        };
        lemma_calls_nested(thought, delta_calls(choice), meta, depth);
        let called = calls_run(thought, delta_calls(choice), meta);
        match non_empty(choice.get_str("finish_reason"@)) {
            Some(reason) => {
                lemma_close_nested(
                    RunV {
                        finish_reason: Some(crate::bridge::sse::stop_vocabulary(reason)),
                        ..called
                    },
                    depth,
                );
            },
            None => {},
        }
    }
}

proof fn lemma_events_nested(run: RunV, events: Seq<Seq<u8>>, meta: StreamMetaV, depth: nat)
    requires
        nested(run, depth),
    ensures
        nested(events_run(run, events, meta), depth),
    decreases events.len(),
{
    if events.len() > 0 {
        lemma_events_nested(run, events.drop_last(), meta, depth);
        let before = events_run(run, events.drop_last(), meta);
        match event_value(events.last()) {
            Some(v) => {
                let seen = observe_usage(before, v);
                lemma_emit_nested(
                    RunV { started: true, ..seen },
                    EventV::MessageStart { model: crate::bridge::sse::start_model(v, meta) },
                    depth,
                );
                lemma_choices_nested(begin(seen, v, meta), v.list("choices"@), meta, depth);
            },
            None => {},
        }
    }
}

/// Blocks nest: in what a chunk emits, every block starts at the next
/// content index and only the last open one stops, and what the end of the
/// stream emits closes every block that is open.
pub proof fn law_blocks_nest(t: TranslatorV, chunk: Seq<u8>)
    ensures
        nesting(pushed(t, chunk).run.out, t.run.open.len()) == Some(
            pushed(t, chunk).run.open.len(),
        ),
        t.committed && !t.finishing ==> nesting(finished(t).run.out, t.run.open.len()) == Some(
            0nat,
        ),
{
    let depth = t.run.open.len();
    assert(nested(quiet(t.run), depth));
    lemma_events_nested(quiet(t.run), complete_events(t.pending + chunk), t.meta, depth);
    if t.committed && !t.finishing {
        let closed = close_all(quiet(t.run));
        lemma_close_nested(quiet(t.run), depth);
        let delta = EventV::MessageDelta {
            stop_reason: closed.finish_reason,
            input: closed.input_tokens,
            output: closed.output_tokens,
        };
        lemma_emit_nested(closed, delta, depth);
        lemma_emit_nested(emit(closed, delta), EventV::MessageStop, depth);
    }
}

/// Whether the events are in order in a run that was started or not before:
/// `message_start` comes first and only in a run not started before.
pub open spec fn starts_once(events: Seq<EventV>, started_before: bool) -> bool {
    forall|i: int|
        0 <= i < events.len() ==> ((#[trigger] events[i]) is MessageStart <==> (i == 0
            && !started_before))
}

/// What a run keeps about its start.
pub open spec fn start_kept(run: RunV, started_before: bool) -> bool {
    &&& starts_once(run.out, started_before)
    &&& run.started <==> (started_before || run.out.len() > 0)
}

proof fn lemma_stops_no_start(n: nat)
    ensures
        forall|i: int| 0 <= i < stops(n).len() ==> (#[trigger] stops(n)[i]) is BlockStop,
    decreases n,
{
    if n > 0 {
        lemma_stops_no_start((n - 1) as nat);
    }
}

proof fn lemma_calls_start(run: RunV, calls: Seq<JsonV>, meta: StreamMetaV, before: bool)
    requires
        start_kept(run, before),
        run.started,
    ensures
        start_kept(calls_run(run, calls, meta), before),
        calls_run(run, calls, meta).started,
    decreases calls.len(),
{
    if calls.len() > 0 {
        lemma_calls_start(run, calls.drop_last(), meta, before);
    }
}

proof fn lemma_choices_start(run: RunV, choices: Seq<JsonV>, meta: StreamMetaV, before: bool)
    requires
        start_kept(run, before),
        run.started,
    ensures
        start_kept(choices_run(run, choices, meta), before),
        choices_run(run, choices, meta).started,
    decreases choices.len(),
{
    if choices.len() > 0 {
        lemma_choices_start(run, choices.drop_last(), meta, before);
        let so_far = choices_run(run, choices.drop_last(), meta);
        let choice = choices.last();
        let said = match delta_text(choice, "content"@) {
            Some(t) => text_delta(so_far, t),
            None => so_far,
        };
        let thought = match delta_text(choice, "reasoning_content"@) {
            Some(t) => thinking_delta(said, t),
            None => said,
        };
        lemma_calls_start(thought, delta_calls(choice), meta, before);
        let called = calls_run(thought, delta_calls(choice), meta);
        lemma_stops_no_start(called.open.len());
    }
}

proof fn lemma_events_start(run: RunV, events: Seq<Seq<u8>>, meta: StreamMetaV, before: bool)
    requires
        start_kept(run, before),
    ensures
        start_kept(events_run(run, events, meta), before),
    decreases events.len(),
{
    if events.len() > 0 {
        lemma_events_start(run, events.drop_last(), meta, before);
        let so_far = events_run(run, events.drop_last(), meta);
        match event_value(events.last()) {
            Some(v) => {
                let seen = observe_usage(so_far, v);
                if v.list("choices"@).len() > 0 {
                    lemma_choices_start(
                        begin(seen, v, meta),
                        v.list("choices"@),
                        meta,
                        before,
                    );
                }
            },
            None => {},
        }
    }
}

/// The message starts once: the first event a stream emits is
/// `message_start`, no later one is, and a stream counts as started exactly
/// when it has emitted an event.
pub proof fn law_message_starts_once(t: TranslatorV, chunk: Seq<u8>)
    ensures
        starts_once(pushed(t, chunk).run.out, t.run.started),
        pushed(t, chunk).run.started <==> (t.run.started || pushed(t, chunk).run.out.len() > 0),
{
    lemma_events_start(
        quiet(t.run),
        complete_events(t.pending + chunk),
        t.meta,
        t.run.started,
    );
}

/// The first chunk with a choice.
pub open spec fn first_speaker(chunks: Seq<JsonV>) -> Option<JsonV>
    decreases chunks.len(),
{
    if chunks.len() == 0 {
        None
    } else if first_speaker(chunks.drop_last()) is Some {
        first_speaker(chunks.drop_last())
    } else if chunks.last().list("choices"@).len() > 0 {
        Some(chunks.last())
    } else {
        None
    }
}

/// A message that starts with the given events names the model of the first
/// chunk with a choice.
spec fn opened(run: RunV, chunks: Seq<JsonV>, meta: StreamMetaV) -> bool {
    match first_speaker(chunks) {
        Some(v) => run.started && run.out.len() > 0 && run.out[0] == (EventV::MessageStart {
            model: start_model(v, meta),
        }),
        None => !run.started && run.out.len() == 0,
    }
}

proof fn lemma_choices_grow(run: RunV, choices: Seq<JsonV>, meta: StreamMetaV)
    ensures
        run.out.is_prefix_of(choices_run(run, choices, meta).out),
{
    assert(after(run.out, quiet(run)) == run) by {
        assert(run.out + Seq::<EventV>::empty() == run.out);
    }
    lemma_choices_after(run.out, quiet(run), choices, meta);
    let rest = choices_run(quiet(run), choices, meta).out;
    assert((run.out + rest).take(run.out.len() as int) =~= run.out);
}

proof fn lemma_events_opened(run: RunV, events: Seq<Seq<u8>>, meta: StreamMetaV)
    requires
        !run.started,
        run.out.len() == 0,
    ensures
        opened(events_run(run, events, meta), chunks_of(events), meta),
    decreases events.len(),
{
    if events.len() > 0 {
        let head = events.drop_last();
        lemma_events_opened(run, head, meta);
        lemma_events_start(run, head, meta, false);
        match event_value(events.last()) {
            Some(v) => {
                let before = events_run(run, head, meta);
                let seen = observe_usage(before, v);
                let choices = v.list("choices"@);
                assert(chunks_of(head).push(v).drop_last() =~= chunks_of(head));
                if choices.len() > 0 {
                    let start = begin(seen, v, meta);
                    lemma_choices_grow(start, choices, meta);
                    let end = choices_run(start, choices, meta);
                    assert(end.out[0] == start.out[0]);
                    lemma_choices_start(start, choices, meta, false);
                }
            },
            None => {},
        }
    }
}

/// A stream speaks as soon as upstream does: nothing is said before the
/// first chunk with a choice, and that chunk opens the message, in the
/// assistant's role and under the requested model, or the upstream's where
/// none was requested.
pub proof fn law_streams_open_with_the_model(t: TranslatorV, chunk: Seq<u8>)
    requires
        !t.run.started,
    ensures
        ({
            let out = pushed(t, chunk).run.out;
            match first_speaker(chunks_of(complete_events(t.pending + chunk))) {
                Some(v) => {
                    &&& out.len() > 0
                    &&& event_data(out[0]).get_str("type"@) == Some("message_start"@)
                    &&& event_data(out[0]).get("message"@) is Some
                    &&& event_data(out[0]).get("message"@)->0.get_str("role"@) == Some(
                        "assistant"@,
                    )
                    &&& event_data(out[0]).get("message"@)->0.get_str("model"@)
                        == if t.meta.model.len() > 0 {
                        Some(t.meta.model)
                    } else {
                        match v.get_str("model"@) {
                            Some(model) => Some(model),
                            None => Some(Seq::empty()),
                        }
                    }
                },
                None => out.len() == 0,
            }
        }),
{
    lemma_events_opened(quiet(t.run), complete_events(t.pending + chunk), t.meta);
    lemma_event_keys();
    reveal_strlit("role");
    reveal_strlit("model");
    reveal_strlit("content");
    reveal_strlit("stop_reason");
    reveal_strlit("stop_sequence");
    reveal_strlit("usage");
    assert("role"@.len() == 4 && "model"@.len() == 5 && "content"@.len() == 7);
    assert("usage"@.len() == 5 && "usage"@[0] == 'u' && "model"@[0] == 'm');
    assert("stop_reason"@.len() == 11 && "stop_sequence"@.len() == 13);
}

/// The data that the lines of an event hold, a line each; none where no
/// line holds any.
pub open spec fn data_in(ls: Seq<Seq<char>>) -> Option<Seq<char>>
    decreases ls.len(),
{
    if ls.len() == 0 {
        None
    } else {
        let before = data_in(ls.drop_last());
        let line = ls.last();
        if line.len() >= 5 && line.take(5) == "data:"@ {
            match before {
                Some(data) => Some(data + "\n"@ + line.skip(5)),
                None => Some(line.skip(5)),
            }
        } else {
            before
        }
    }
}

proof fn lemma_data_in(ls: Seq<Seq<char>>)
    ensures
        match data_in(ls) {
            Some(data) => data_fields(ls).len() > 0 && joined(data_fields(ls), "\n"@) == data,
            None => data_fields(ls).len() == 0,
        },
    decreases ls.len(),
{
    if ls.len() > 0 {
        lemma_data_in(ls.drop_last());
        reveal_strlit("data:");
        assert("data:"@.len() == 5);
        let line = ls.last();
        let before = data_fields(ls.drop_last());
        if "data:"@.is_prefix_of(line) {
            assert(line.take(5) =~= "data:"@);
            assert(before.push(line.skip(5)).drop_last() =~= before);
        } else if line.len() >= 5 && line.take(5) == "data:"@ {
            assert("data:"@.is_prefix_of(line));
        }
    }
}

/// An upstream event of whole lines carries the JSON in its `data:` lines,
/// joined and trimmed; other lines do not count.
pub proof fn law_data_lines_carry_the_json(ls: Seq<Seq<char>>)
    requires
        forall|i: int| 0 <= i < ls.len() ==> one_line(#[trigger] ls[i]),
    ensures
        event_value(encode_utf8(typed(ls))) == match data_in(ls) {
            Some(data) => if trimmed(data).len() > 0 {
                json_of_text(trimmed(data))
            } else {
                None
            },
            None => None,
        },
{
    broadcast use vstd::utf8::encode_utf8_valid_utf8;
    broadcast use vstd::utf8::encode_utf8_decode_utf8;

    law_typed_lines_are_read_back(ls);
    lemma_data_in(ls);
    assert(decode_utf8(encode_utf8(typed(ls))) == typed(ls));
    if data_in(ls) is None {
        assert(joined(data_fields(ls), "\n"@).len() == 0);
        assert(trimmed_start(joined(data_fields(ls), "\n"@)).len() == 0);
        assert(trimmed(joined(data_fields(ls), "\n"@)).len() == 0);
    }
}

}
