//! What a translated stream says of tool calls: each upstream call opens one
//! block, under its own id and name, and its arguments go to that block.
use crate::bridge::sse::{
    begin, call_index, call_step, calls_run, choice_step, choices_run, complete_events,
    delta_calls, delta_text, event_data, event_value, events_run, fresh_tool, observe_usage,
    pushed, quiet, stops, text_delta, thinking_delta, tool_block, EventV, RunV, StreamMetaV,
    TranslatorV,
};
use crate::bridge::stream_content_laws::{choices_of, chunks_of, lemma_event_keys, lemma_event_names};
use crate::json::JsonV;
use crate::text::{decimal, non_empty};
use vstd::prelude::*;

verus! {

/// The tool calls in the deltas of choices, in order.
pub open spec fn asked_in(choices: Seq<JsonV>) -> Seq<JsonV>
    decreases choices.len(),
{
    if choices.len() == 0 {
        Seq::empty()
    } else {
        asked_in(choices.drop_last()) + match choices.last().get("delta"@) {
            Some(delta) => delta.list("tool_calls"@),
            None => Seq::empty(),
        }
    }
}

/// The place that a call names among the upstream calls.
pub open spec fn number_of(call: JsonV) -> u64 {
    match call.get_u64("index"@) {
        Some(i) => i,
        None => 0,
    }
}

/// The places that calls of functions name, added to those named before.
pub open spec fn named(asked: Seq<JsonV>, before: Set<u64>) -> Set<u64>
    decreases asked.len(),
{
    if asked.len() == 0 {
        before
    } else if asked.last().get("function"@) is Some {
        named(asked.drop_last(), before).insert(number_of(asked.last()))
    } else {
        named(asked.drop_last(), before)
    }
}

/// The calls that are the first to name their place.
pub open spec fn firsts(asked: Seq<JsonV>, before: Set<u64>) -> Seq<JsonV>
    decreases asked.len(),
{
    if asked.len() == 0 {
        Seq::empty()
    } else {
        let earlier = firsts(asked.drop_last(), before);
        if asked.last().get("function"@) is Some && !named(asked.drop_last(), before).contains(
            number_of(asked.last()),
        ) {
            earlier.push(asked.last())
        } else {
            earlier
        }
    }
}

/// The arguments of calls that have any, each with the block of its place.
pub open spec fn placed(asked: Seq<JsonV>, blocks: Map<u64, nat>) -> Seq<(JsonV, Seq<char>)>
    decreases asked.len(),
{
    if asked.len() == 0 {
        Seq::empty()
    } else {
        let earlier = placed(asked.drop_last(), blocks);
        match asked.last().get("function"@) {
            Some(function) => match function.get_str("arguments"@) {
                Some(text) => if text.len() > 0 {
                    earlier.push((JsonV::Int(blocks[number_of(asked.last())] as int), text))
                } else {
                    earlier
                },
                None => earlier,
            },
            None => earlier,
        }
    }
}

/// The tool blocks that events start, each with its index.
pub open spec fn started_tools(events: Seq<EventV>) -> Seq<(JsonV, JsonV)>
    decreases events.len(),
{
    if events.len() == 0 {
        Seq::empty()
    } else {
        let earlier = started_tools(events.drop_last());
        match event_data(events.last()).get("content_block"@) {
            Some(block) => if block.get_str("type"@) == Some("tool_use"@) {
                earlier.push((event_data(events.last()).get("index"@)->0, block))
            } else {
                earlier
            },
            None => earlier,
        }
    }
}

/// The input deltas of events, each with its index.
pub open spec fn input_deltas(events: Seq<EventV>) -> Seq<(JsonV, Seq<char>)>
    decreases events.len(),
{
    if events.len() == 0 {
        Seq::empty()
    } else {
        let earlier = input_deltas(events.drop_last());
        match event_data(events.last()).get("delta"@) {
            Some(delta) => match delta.get_str("partial_json"@) {
                Some(text) => earlier.push((event_data(events.last()).get("index"@)->0, text)),
                None => earlier,
            },
            None => earlier,
        }
    }
}

/// Whether a started tool block is that of a call, at the given index.
pub open spec fn starts_call(
    start: (JsonV, JsonV),
    call: JsonV,
    index: nat,
    meta: StreamMetaV,
) -> bool {
    let name = match call.get("function"@)->0.get_str("name"@) {
        Some(name) => name,
        None => Seq::empty(),
    };
    &&& start.0 == JsonV::Int(index as int)
    &&& start.1.get_str("id"@) == match call.get_str("id"@) {
        Some(id) => Some(id),
        None => Some("toolu_stream_"@ + decimal(number_of(call) as nat)),
    }
    &&& start.1.get_str("name"@) == Some(name)
    &&& start.1.get("input"@) == Some(JsonV::Object(Map::empty()))
    &&& start.1.get("caller"@) is Some <==> meta.client_tool_names.contains(name)
}

/// Whether started tool blocks are those of calls, each at its place's
/// block.
pub open spec fn starts_calls(
    starts: Seq<(JsonV, JsonV)>,
    first: Seq<JsonV>,
    blocks: Map<u64, nat>,
    meta: StreamMetaV,
) -> bool {
    &&& starts.len() == first.len()
    &&& forall|k: int|
        0 <= k < first.len() ==> #[trigger] blocks.contains_key(number_of(first[k]))
            && starts_call(starts[k], first[k], blocks[number_of(first[k])], meta)
}

/// Whether every place keeps the block it had.
pub open spec fn keeps_blocks(before: Map<u64, nat>, after: Map<u64, nat>) -> bool {
    forall|i: u64| #[trigger]
        before.contains_key(i) ==> after.contains_key(i) && after[i] == before[i]
}

/// What a run has made of calls since it stood at `from`.
spec fn kept(from: RunV, run: RunV, asked: Seq<JsonV>, meta: StreamMetaV) -> bool {
    &&& run.slots.dom() == named(asked, from.slots.dom())
    &&& keeps_blocks(from.slots, run.slots)
    &&& starts_calls(
        started_tools(run.out),
        firsts(asked, from.slots.dom()),
        run.slots,
        meta,
    )
    &&& input_deltas(run.out) == placed(asked, run.slots)
}

proof fn lemma_block_keys()
    ensures
        "text"@ != "partial_json"@,
        "thinking"@ != "partial_json"@,
        "stop_reason"@ != "partial_json"@,
        "stop_sequence"@ != "partial_json"@,
        "message"@ != "content_block"@,
        "usage"@ != "content_block"@,
{
    reveal_strlit("text");
    reveal_strlit("thinking");
    reveal_strlit("partial_json");
    reveal_strlit("stop_reason");
    reveal_strlit("stop_sequence");
    reveal_strlit("message");
    reveal_strlit("usage");
    reveal_strlit("content_block");
    assert("text"@.len() == 4 && "thinking"@.len() == 8 && "partial_json"@.len() == 12);
    assert("stop_reason"@.len() == 11 && "stop_sequence"@.len() == 13);
    assert("message"@.len() == 7 && "usage"@.len() == 5 && "content_block"@.len() == 13);
}

/// Events that are of no tool change nothing.
proof fn lemma_other_event(events: Seq<EventV>, e: EventV)
    requires
        match e {
            EventV::BlockStart { block, .. } => block.get_str("type"@) != Some("tool_use"@),
            EventV::BlockDelta { field, .. } => field == "text"@ || field == "thinking"@,
            _ => true,
        },
    ensures
        started_tools(events.push(e)) == started_tools(events),
        input_deltas(events.push(e)) == input_deltas(events),
{
    lemma_event_keys();
    lemma_block_keys();
    assert(events.push(e).drop_last() =~= events);
}

proof fn lemma_other_events(events: Seq<EventV>, n: nat)
    ensures
        started_tools(events + stops(n)) == started_tools(events),
        input_deltas(events + stops(n)) == input_deltas(events),
    decreases n,
{
    if n == 0 {
        assert(events + stops(0) =~= events);
    } else {
        let e = EventV::BlockStop { index: (n - 1) as nat };
        assert(events + stops(n) =~= events.push(e) + stops((n - 1) as nat));
        lemma_other_events(events.push(e), (n - 1) as nat);
        lemma_other_event(events, e);
    }
}

/// Places that get a block later do not change where earlier ones stand.
proof fn lemma_placed_on(
    asked: Seq<JsonV>,
    before: Set<u64>,
    old_blocks: Map<u64, nat>,
    blocks: Map<u64, nat>,
)
    requires
        forall|i: u64| #[trigger] named(asked, before).contains(i) ==> old_blocks.contains_key(i),
        forall|i: u64| #[trigger]
            old_blocks.contains_key(i) ==> blocks.contains_key(i) && blocks[i] == old_blocks[i],
    ensures
        placed(asked, blocks) == placed(asked, old_blocks),
    decreases asked.len(),
{
    if asked.len() > 0 {
        assert forall|i: u64| #[trigger]
            named(asked.drop_last(), before).contains(i) implies old_blocks.contains_key(i) by {
            assert(named(asked, before).contains(i));
        }
        lemma_placed_on(asked.drop_last(), before, old_blocks, blocks);
        if asked.last().get("function"@) is Some {
            assert(named(asked, before).contains(number_of(asked.last())));
        }
    }
}

proof fn lemma_starts_fresh(call: JsonV, function: JsonV, meta: StreamMetaV, index: nat)
    requires
        call.get("function"@) == Some(function),
    ensures
        starts_call(
            (JsonV::Int(index as int), fresh_tool(call, function, meta)),
            call,
            index,
            meta,
        ),
{
    lemma_event_names();
    reveal_strlit("input");
    reveal_strlit("caller");
    assert("input"@.len() == 5 && "caller"@.len() == 6);
}

proof fn lemma_starts_keep(
    starts: Seq<(JsonV, JsonV)>,
    first: Seq<JsonV>,
    before: Map<u64, nat>,
    after: Map<u64, nat>,
    meta: StreamMetaV,
)
    requires
        starts_calls(starts, first, before, meta),
        keeps_blocks(before, after),
    ensures
        starts_calls(starts, first, after, meta),
{
    assert forall|k: int| 0 <= k < first.len() implies #[trigger] after.contains_key(
        number_of(first[k]),
    ) && starts_call(starts[k], first[k], after[number_of(first[k])], meta) by {
        assert(before.contains_key(number_of(first[k])));
    }
}

proof fn lemma_starts_push(
    starts: Seq<(JsonV, JsonV)>,
    first: Seq<JsonV>,
    blocks: Map<u64, nat>,
    start: (JsonV, JsonV),
    call: JsonV,
    meta: StreamMetaV,
)
    requires
        starts_calls(starts, first, blocks, meta),
        blocks.contains_key(number_of(call)),
        starts_call(start, call, blocks[number_of(call)], meta),
    ensures
        starts_calls(starts.push(start), first.push(call), blocks, meta),
{
    let s = starts.push(start);
    let f = first.push(call);
    assert forall|k: int| 0 <= k < f.len() implies #[trigger] blocks.contains_key(
        number_of(f[k]),
    ) && starts_call(s[k], f[k], blocks[number_of(f[k])], meta) by {
        if k < first.len() {
            assert(s[k] == starts[k] && f[k] == first[k]);
            assert(blocks.contains_key(number_of(first[k])));
        }
    }
}

proof fn lemma_call_kept(from: RunV, run: RunV, asked: Seq<JsonV>, call: JsonV, meta: StreamMetaV)
    requires
        kept(from, run, asked, meta),
    ensures
        kept(from, call_step(run, call, meta), asked.push(call), meta),
{
    let all = asked.push(call);
    assert(all.drop_last() =~= asked);
    let before = from.slots.dom();
    match call.get("function"@) {
        None => {
            assert(placed(all, run.slots) == placed(asked, run.slots));
        },
        Some(function) => {
            lemma_event_keys();
            lemma_event_names();
            lemma_block_keys();
            let i = number_of(call);
            assert(i == call_index(call));
            let block = fresh_tool(call, function, meta);
            let r = tool_block(run, call, function, meta);
            let e = EventV::BlockStart { index: run.open.len(), block };
            assert(block.get_str("type"@) == Some("tool_use"@));
            assert(run.out.push(e).drop_last() =~= run.out);
            assert(r.slots.dom() =~= named(all, before));
            assert forall|j: u64| #[trigger] run.slots.contains_key(j) implies r.slots.contains_key(j)
                && r.slots[j] == run.slots[j] by {}
            lemma_placed_on(asked, before, run.slots, r.slots);
            if !run.slots.contains_key(i) {
                assert(started_tools(r.out) == started_tools(run.out).push(
                    (JsonV::Int(run.open.len() as int), block),
                ));
                assert(input_deltas(r.out) == input_deltas(run.out));
                assert(firsts(all, before) == firsts(asked, before).push(call));
            } else {
                assert(firsts(all, before) == firsts(asked, before));
            }
            let first = firsts(all, before);
            let starts = started_tools(r.out);
            assert(keeps_blocks(run.slots, r.slots));
            lemma_starts_keep(
                started_tools(run.out),
                firsts(asked, before),
                run.slots,
                r.slots,
                meta,
            );
            if !run.slots.contains_key(i) {
                lemma_starts_fresh(call, function, meta, run.open.len());
                lemma_starts_push(
                    started_tools(run.out),
                    firsts(asked, before),
                    r.slots,
                    (JsonV::Int(run.open.len() as int), block),
                    call,
                    meta,
                );
            }
            assert(starts_calls(starts, first, r.slots, meta));
            match non_empty(function.get_str("arguments"@)) {
                Some(arguments) => {
                    let d = EventV::BlockDelta {
                        index: r.slots[i],
                        kind: "input_json_delta"@,
                        field: "partial_json"@,
                        text: arguments,
                    };
                    assert(r.out.push(d).drop_last() =~= r.out);
                    assert(started_tools(r.out.push(d)) == started_tools(r.out));
                    assert(input_deltas(r.out.push(d)) == input_deltas(r.out).push(
                        (JsonV::Int(r.slots[i] as int), arguments),
                    ));
                },
                None => {},
            }
            let next = call_step(run, call, meta);
            assert(next.slots == r.slots);
            assert(keeps_blocks(from.slots, next.slots)) by {
                assert forall|j: u64| #[trigger] from.slots.contains_key(j) implies next.slots.contains_key(
                    j,
                ) && next.slots[j] == from.slots[j] by {
                    assert(run.slots.contains_key(j));
                }
            }
            assert(started_tools(next.out) == starts);
            assert(input_deltas(next.out) == placed(all, next.slots));
        },
    }
}

proof fn lemma_calls_kept(
    from: RunV,
    run: RunV,
    asked: Seq<JsonV>,
    calls: Seq<JsonV>,
    meta: StreamMetaV,
)
    requires
        kept(from, run, asked, meta),
    ensures
        kept(from, calls_run(run, calls, meta), asked + calls, meta),
    decreases calls.len(),
{
    if calls.len() == 0 {
        assert(asked + calls =~= asked);
    } else {
        lemma_calls_kept(from, run, asked, calls.drop_last(), meta);
        lemma_call_kept(
            from,
            calls_run(run, calls.drop_last(), meta),
            asked + calls.drop_last(),
            calls.last(),
            meta,
        );
        assert((asked + calls.drop_last()).push(calls.last()) =~= asked + calls);
    }
}

/// A run with the same slots whose tool events are the same keeps as much.
proof fn lemma_kept_by(from: RunV, run: RunV, next: RunV, asked: Seq<JsonV>, meta: StreamMetaV)
    requires
        kept(from, run, asked, meta),
        next.slots == run.slots,
        started_tools(next.out) == started_tools(run.out),
        input_deltas(next.out) == input_deltas(run.out),
    ensures
        kept(from, next, asked, meta),
{
}

proof fn lemma_text_kept(run: RunV, text: Seq<char>)
    ensures
        text_delta(run, text).slots == run.slots,
        started_tools(text_delta(run, text).out) == started_tools(run.out),
        input_deltas(text_delta(run, text).out) == input_deltas(run.out),
        thinking_delta(run, text).slots == run.slots,
        started_tools(thinking_delta(run, text).out) == started_tools(run.out),
        input_deltas(thinking_delta(run, text).out) == input_deltas(run.out),
{
    lemma_event_keys();
    lemma_event_names();
    let text_block = crate::bridge::sse::fresh_text();
    let thinking_block = crate::bridge::sse::fresh_thinking();
    assert(text_block.get_str("type"@) == Some("text"@));
    assert(thinking_block.get_str("type"@) == Some("thinking"@));
    let index = run.open.len();
    lemma_other_event(run.out, EventV::BlockStart { index, block: text_block });
    lemma_other_event(run.out, EventV::BlockStart { index, block: thinking_block });
    let r = crate::bridge::sse::reuse_block(run, crate::bridge::sse::OpenKind::Text, text_block);
    lemma_other_event(
        r.out,
        EventV::BlockDelta {
            index: (r.open.len() - 1) as nat,
            kind: "text_delta"@,
            field: "text"@,
            text,
        },
    );
    let s = crate::bridge::sse::reuse_block(
        run,
        crate::bridge::sse::OpenKind::Thinking,
        thinking_block,
    );
    lemma_other_event(
        s.out,
        EventV::BlockDelta {
            index: (s.open.len() - 1) as nat,
            kind: "thinking_delta"@,
            field: "thinking"@,
            text,
        },
    );
}

proof fn lemma_choices_kept(
    from: RunV,
    run: RunV,
    asked: Seq<JsonV>,
    choices: Seq<JsonV>,
    meta: StreamMetaV,
)
    requires
        kept(from, run, asked, meta),
    ensures
        kept(from, choices_run(run, choices, meta), asked + asked_in(choices), meta),
    decreases choices.len(),
{
    if choices.len() == 0 {
        assert(asked + asked_in(choices) =~= asked);
    } else {
        let head = choices.drop_last();
        lemma_choices_kept(from, run, asked, head, meta);
        let before = choices_run(run, head, meta);
        let so_far = asked + asked_in(head);
        let choice = choices.last();
        let said = match delta_text(choice, "content"@) {
            Some(t) => {
                lemma_text_kept(before, t);
                text_delta(before, t)
            },
            None => before,
        };
        lemma_kept_by(from, before, said, so_far, meta);
        let thought = match delta_text(choice, "reasoning_content"@) {
            Some(t) => {
                lemma_text_kept(said, t);
                thinking_delta(said, t)
            },
            None => said,
        };
        lemma_kept_by(from, said, thought, so_far, meta);
        lemma_calls_kept(from, thought, so_far, delta_calls(choice), meta);
        let called = calls_run(thought, delta_calls(choice), meta);
        assert(so_far + delta_calls(choice) =~= asked + asked_in(choices));
        let after = choice_step(before, choice, meta);
        match non_empty(choice.get_str("finish_reason"@)) {
            Some(reason) => {
                lemma_other_events(called.out, called.open.len());
                lemma_kept_by(from, called, after, asked + asked_in(choices), meta);
            },
            None => {},
        }
    }
}

proof fn lemma_asked_append(first: Seq<JsonV>, second: Seq<JsonV>)
    ensures
        asked_in(first + second) == asked_in(first) + asked_in(second),
    decreases second.len(),
{
    if second.len() == 0 {
        assert(first + second =~= first);
        assert(asked_in(first) + asked_in(second) =~= asked_in(first));
    } else {
        assert((first + second).drop_last() =~= first + second.drop_last());
        assert((first + second).last() == second.last());
        lemma_asked_append(first, second.drop_last());
        assert(asked_in(first + second) =~= asked_in(first) + asked_in(second));
    }
}

proof fn lemma_events_kept(from: RunV, events: Seq<Seq<u8>>, meta: StreamMetaV)
    requires
        from.out.len() == 0,
    ensures
        kept(
            from,
            events_run(from, events, meta),
            asked_in(choices_of(chunks_of(events))),
            meta,
        ),
    decreases events.len(),
{
    if events.len() == 0 {
        assert(kept(from, from, Seq::empty(), meta));
    } else {
        let head = events.drop_last();
        lemma_events_kept(from, head, meta);
        let before = events_run(from, head, meta);
        let earlier = choices_of(chunks_of(head));
        match event_value(events.last()) {
            Some(v) => {
                let choices = v.list("choices"@);
                let seen = observe_usage(before, v);
                let started = begin(seen, v, meta);
                lemma_other_event(
                    seen.out,
                    EventV::MessageStart { model: crate::bridge::sse::start_model(v, meta) },
                );
                lemma_kept_by(from, before, started, asked_in(earlier), meta);
                lemma_choices_kept(from, started, asked_in(earlier), choices, meta);
                lemma_asked_append(earlier, choices);
                assert(chunks_of(head).push(v).drop_last() =~= chunks_of(head));
                assert(choices_of(chunks_of(events)) == earlier + choices);
                if choices.len() == 0 {
                    lemma_kept_by(from, before, seen, asked_in(earlier), meta);
                    assert(earlier + choices =~= earlier);
                    assert(events_run(from, events, meta) == seen);
                } else {
                    assert(events_run(from, events, meta) == choices_run(started, choices, meta));
                }
            },
            None => {},
        }
    }
}

/// Every upstream tool call gets one block, started on its first sight with
/// its own id and name and no input, and every piece of its arguments goes
/// to that block, in order. Calls are told apart by their upstream place,
/// and a place keeps its block.
pub proof fn law_calls_keep_to_their_blocks(t: TranslatorV, chunk: Seq<u8>)
    ensures
        ({
            let asked = asked_in(choices_of(chunks_of(complete_events(t.pending + chunk))));
            let after = pushed(t, chunk).run;
            &&& after.slots.dom() == named(asked, t.run.slots.dom())
            &&& keeps_blocks(t.run.slots, after.slots)
            &&& starts_calls(
                started_tools(after.out),
                firsts(asked, t.run.slots.dom()),
                after.slots,
                t.meta,
            )
            &&& input_deltas(after.out) == placed(asked, after.slots)
        }),
{
    lemma_events_kept(quiet(t.run), complete_events(t.pending + chunk), t.meta);
}

}
