//! The stream translator: OpenAI chunks in, Anthropic events out.
use bytes::Bytes;
use nim_proxy::bridge::sse::{find_event_end, StreamMeta, StreamTranslator, RETAIN_CAP};

fn s(b: &str) -> Bytes {
    Bytes::copy_from_slice(b.as_bytes())
}

/// Feed one byte at a time to prove boundary tolerance.
fn byte_at_a_time(chunk: &str) -> Vec<Bytes> {
    let mut t = StreamTranslator::new();
    let mut out: Vec<Bytes> = Vec::new();
    for b in chunk.bytes() {
        let one = Bytes::copy_from_slice(&[b]);
        out.extend(t.push(&one));
    }
    out.extend(t.finish());
    out
}

fn events(chunk: &str) -> Vec<Bytes> {
    let mut t = StreamTranslator::new();
    let mut out = t.push(&s(chunk));
    out.extend(t.finish());
    out
}

fn joined(evs: &[Bytes]) -> String {
    evs.iter()
        .map(|b| String::from_utf8_lossy(b).to_string())
        .collect()
}

#[test]
fn green_text_stream_produces_full_event_sequence() {
    let stream = &["data: {\"choices\":[{\"delta\":{\"content\":\"he\"}}]}\n\n",
        "data: {\"choices\":[{\"delta\":{\"content\":\"llo\"},\"finish_reason\":\"stop\"}]}\n\n",
        "data: {\"choices\":[],\"usage\":{\"prompt_tokens\":7,\"completion_tokens\":2}}\n\n"].concat();
    let evs = events(stream);
    let joined = joined(&evs);
    assert!(
        joined.contains("event: message_start"),
        "message_start opens the stream: {joined:?}"
    );
    assert!(
        joined.contains("\"type\":\"text_delta\"") && joined.contains("\"index\":0"),
        "text deltas carry the content index: {joined:?}"
    );
    assert!(
        joined.contains("event: content_block_stop")
            && joined.contains("event: content_block_start"),
        "the block group opens and closes: {joined:?}"
    );
    let delta = joined
        .split("event: message_delta")
        .nth(1)
        .expect("a message_delta");
    assert!(
        delta.contains("\"stop_reason\":\"end_turn\""),
        "stop maps to end_turn: {delta:?}"
    );
    assert!(
        delta.contains("\"input_tokens\":7") && delta.contains("\"output_tokens\":2"),
        "usage is forwarded: {delta:?}"
    );
    assert!(
        joined.contains("event: message_stop"),
        "message_stop terminates: {joined:?}"
    );
}

#[test]
fn green_length_finish_maps_to_max_tokens() {
    let stream = "data: {\"choices\":[{\"delta\":{\"content\":\"x\"},\"finish_reason\":\"length\"}]}\n\n";
    let joined = joined(&events(stream));
    let delta = joined
        .split("event: message_delta")
        .nth(1)
        .expect("a message_delta");
    assert!(
        delta.contains("\"stop_reason\":\"max_tokens\""),
        "length maps to max_tokens: {delta:?}"
    );
}

#[test]
fn green_tool_call_stream_emits_tool_use_blocks() {
    let stream = &["data: {\"choices\":[{\"delta\":{\"tool_calls\":[{\"index\":0,\"id\":\"call_1\",\"type\":\"function\",\"function\":{\"name\":\"get_weather\",\"arguments\":\"{\\\"city\\\":\\\"\"}}]}}]}\n\n",
        "data: {\"choices\":[{\"delta\":{\"tool_calls\":[{\"index\":0,\"function\":{\"arguments\":\"\\\"Paris\\\"\"}}]},\"finish_reason\":\"tool_calls\"}]}\n\n",
        "data: {\"choices\":[],\"usage\":{\"prompt_tokens\":3,\"completion_tokens\":1}}\n\n"].concat();
    let evs = events(stream);
    let plain = joined(&evs);
    assert!(
        plain.contains("\"type\":\"tool_use\"") && plain.contains("\"id\":\"call_1\""),
        "the call's id is echoed on the block: {plain:?}"
    );
    assert!(
        plain.contains("\"type\":\"input_json_delta\""),
        "arguments stream as input_json_delta: {plain:?}"
    );
    let delta = plain
        .split("event: message_delta")
        .nth(1)
        .expect("a message_delta");
    assert!(
        delta.contains("\"stop_reason\":\"tool_use\""),
        "tool_calls finish maps to tool_use: {delta:?}"
    );
    // The caller echo: a client-offered tool names its direct caller.
    let mut t = StreamTranslator::with_meta(StreamMeta {
        client_tool_names: vec!["get_weather".into()],
        model: "m".into(),
    });
    let mut out = t.push(&s(stream));
    out.extend(t.finish());
    let caller_joined = joined(&out);
    assert!(
        caller_joined.contains("\"caller\":{\"type\":\"direct\"}"),
        "client-offered tools echo the direct caller: {caller_joined:?}"
    );
}

#[test]
fn green_reasoning_content_becomes_thinking_block() {
    let stream = &["data: {\"choices\":[{\"delta\":{\"reasoning_content\":\"why \"}}]}\n\n",
        "data: {\"choices\":[{\"delta\":{\"reasoning_content\":\"42\",\"content\":\"\"},\"finish_reason\":\"stop\"}]}\n\n",
        "data: {\"choices\":[],\"usage\":{\"prompt_tokens\":1,\"completion_tokens\":1}}\n\n"].concat();
    let joined = joined(&events(stream));
    assert!(
        joined.contains("\"type\":\"thinking\"") && joined.contains("\"thinking_delta\""),
        "reasoning opens a thinking block: {joined:?}"
    );
}

#[test]
fn green_uncommitted_stream_replays_bytes_exact() {
    let evs = events(": connected\n\n");
    assert_eq!(evs.len(), 1, "{evs:?}");
    assert_eq!(
        evs[0].as_ref(),
        b": connected\n\n",
        "byte-exact, not translated"
    );
}

#[test]
fn green_comment_lines_are_dropped() {
    let stream = &[": keepalive\n\n",
        "data: {\"choices\":[{\"delta\":{\"content\":\"hi\"},\"finish_reason\":\"stop\"}]}\n\n"].concat();
    let joined = joined(&events(stream));
    assert!(
        !joined.contains("keepalive"),
        "comments never reach the client: {joined:?}"
    );
    assert!(joined.contains("hi"), "{joined:?}");
}

#[test]
fn green_hostile_byte_split_produces_identical_output() {
    let stream = &["data: {\"choices\":[{\"delta\":{\"content\":\"hostile\"},\"finish_reason\":\"stop\"}]}\n\n",
        "data: {\"choices\":[],\"usage\":{\"prompt_tokens\":2,\"completion_tokens\":1}}\n\n"].concat();
    let a = joined(&byte_at_a_time(stream));
    let b = joined(&events(stream));
    assert_eq!(a, b, "byte-at-a-time == whole-chunk: {a} vs {b}");
}

#[test]
fn green_malformed_json_is_ignored_not_forwarded() {
    let stream = &["data: {oops-not-json\n\n",
        "data: {\"choices\":[{\"delta\":{\"content\":\"ok\"},\"finish_reason\":\"stop\"}]}\n\n"].concat();
    let joined = joined(&events(stream));
    assert!(
        !joined.contains("oops-not-json"),
        "upstream data never reaches the client raw: {joined:?}"
    );
    assert!(joined.contains("ok"), "{joined:?}");
}

#[test]
fn red_empty_input_tool_call_omits_blank_json_fragment() {
    // A call with no arguments at all: the block opens with `{}`
    // and no input_json_delta fires for an empty fragment.
    let stream = "data: {\"choices\":[{\"delta\":{\"tool_calls\":[{\"index\":0,\"id\":\"c\",\"type\":\"function\",\"function\":{\"name\":\"f\",\"arguments\":\"\"}}]},\"finish_reason\":\"tool_calls\"}]}\n\n";
    let joined = joined(&events(stream));
    assert!(
        joined.contains("\"type\":\"tool_use\"") && joined.contains("\"id\":\"c\""),
        "the block still opens: {joined:?}"
    );
    assert!(
        !joined.contains("partial_json\":\"\""),
        "no empty JSON fragment: {joined:?}"
    );
}

#[test]
fn events_end_at_a_blank_line() {
    assert_eq!(find_event_end(b"data: x\n\nrest"), Some(8));
    assert_eq!(find_event_end(b"\n\n"), Some(1));
    assert_eq!(find_event_end(b"data: x\n"), None);
    assert_eq!(find_event_end(b""), None);
}

#[test]
fn a_text_stream_is_translated_exactly() {
    let mut t = StreamTranslator::with_meta(StreamMeta {
        client_tool_names: vec![],
        model: "m".into(),
    });
    assert!(!t.committed());
    let first = t.push(&s(
        "data: {\"id\":\"u1\",\"choices\":[{\"delta\":{\"content\":\"hi\"},\"finish_reason\":\"stop\"}]}\n\n",
    ));
    assert!(t.committed());
    let text = joined(&first);
    assert!(text.starts_with("event: message_start\ndata: {"), "{text}");
    assert!(text.contains("\"model\":\"m\""), "{text}");
    assert!(text.contains("\"id\":\"msg_stream\""), "{text}");
    assert!(text.ends_with("event: content_block_stop\ndata: {\"index\":0,\"type\":\"content_block_stop\"}\n\n"), "{text}");
    let rest = joined(&t.finish());
    assert!(rest.ends_with("event: message_stop\ndata: {\"type\":\"message_stop\"}\n\n"), "{rest}");
    // The end comes once.
    assert!(t.finish().is_empty());
}

#[test]
fn every_split_gives_the_same_events() {
    let stream = [
        ": keepalive\n\n",
        "data: {\"choices\":[{\"delta\":{\"reasoning_content\":\"hm\"}}]}\n\n",
        "data: {\"choices\":[{\"delta\":{\"content\":\"é\"}}]}\n\n",
        "data: {\"choices\":[{\"delta\":{\"tool_calls\":[{\"index\":0,\"id\":\"c\",\"function\":{\"name\":\"f\",\"arguments\":\"{}\"}}]},\"finish_reason\":\"tool_calls\"}]}\n\n",
        "data: [DONE]\n\n",
    ]
    .concat();
    let whole = joined(&events(&stream));
    for at in 1..stream.len() {
        let mut t = StreamTranslator::new();
        let mut out = t.push(&Bytes::copy_from_slice(&stream.as_bytes()[..at]));
        out.extend(t.push(&Bytes::copy_from_slice(&stream.as_bytes()[at..])));
        out.extend(t.finish());
        assert_eq!(joined(&out), whole, "split at {at}");
    }
}

#[test]
fn blocks_open_and_close_in_order() {
    let stream = [
        "data: {\"choices\":[{\"delta\":{\"reasoning_content\":\"hm\"}}]}\n\n",
        "data: {\"choices\":[{\"delta\":{\"content\":\"a\"}}]}\n\n",
        "data: {\"choices\":[{\"delta\":{\"tool_calls\":[{\"index\":0,\"id\":\"c\",\"function\":{\"name\":\"f\",\"arguments\":\"{}\"}}]}}]}\n\n",
        "data: {\"choices\":[{\"delta\":{},\"finish_reason\":\"tool_calls\"}]}\n\n",
    ]
    .concat();
    let text = joined(&events(&stream));
    let mut open: Vec<u64> = Vec::new();
    let mut opened = 0;
    let mut starts = 0;
    for event in text.split("\n\n").filter(|e| !e.is_empty()) {
        let v: serde_json::Value =
            serde_json::from_str(event.split("data: ").nth(1).unwrap()).unwrap();
        match v["type"].as_str().unwrap() {
            "message_start" => starts += 1,
            "content_block_start" => {
                assert_eq!(v["index"], open.len(), "the next place");
                open.push(open.len() as u64);
                opened += 1;
            }
            "content_block_delta" => assert!(open.contains(&v["index"].as_u64().unwrap())),
            "content_block_stop" => {
                assert_eq!(v["index"].as_u64(), open.pop(), "the innermost first");
            }
            _ => assert!(open.is_empty()),
        }
    }
    assert_eq!(starts, 1);
    assert_eq!(opened, 3);
}

#[test]
fn an_error_event_speaks_anthropic() {
    let t = StreamTranslator::new();
    let frame = t.error_event("upstream_unavailable", "gone");
    let text = String::from_utf8(frame.to_vec()).unwrap();
    assert!(text.starts_with("event: error\ndata: {"), "{text}");
    assert!(text.contains("\"message\":\"gone\""), "{text}");
    assert!(text.ends_with("\n\n"));
}

#[test]
fn a_replay_is_bounded() {
    // Without an event the bytes are kept for the replay, up to the cap.
    let mut t = StreamTranslator::new();
    let comment = format!(": {}\n\n", "x".repeat(1020));
    for _ in 0..(RETAIN_CAP / comment.len() + 8) {
        assert!(t.push(&s(&comment)).is_empty());
    }
    let replayed: usize = t.finish().iter().map(|b| b.len()).sum();
    assert!(replayed <= RETAIN_CAP + comment.len(), "{replayed}");
    assert!(replayed > 0);
}
