//! Request handling: labels, shapes, admission, retries and the machines
//! that drive an exchange.
use bytes::Bytes;
use nim_proxy::bridge::search::finish_search;
use nim_proxy::bridge::sse::StreamTranslator;
use nim_proxy::bridge::{to_chat_payload, ToolFamily};
use nim_proxy::codec;
use nim_proxy::config::SearchFormat;
use nim_proxy::digest::{ct_eq, sha256_hex};
use nim_proxy::json::Json;
use nim_proxy::proxy::admission::{
    gated, heartbeat_due, parse_request_deadline, permit_step, refusal_reply, shared_guard,
    PermitStep, Refusal,
};
use nim_proxy::proxy::affinity::{affinity, lane_of};
use nim_proxy::proxy::buffered::{step_buffered, BufferedEvent, BufferedPhase};
use nim_proxy::proxy::catalog::{catalog_answer, catalog_fresh, CatalogAnswer};
use nim_proxy::proxy::executor::{Executor, RoundAnswer, RoundStep, WEB_SEARCH_MAX_ITERATIONS};
use nim_proxy::proxy::finish::{anthropic_finish, kind_of_status};
use nim_proxy::proxy::flow::{label_of_outcome, Effect, Event, Flow, Move, Outcome};
use nim_proxy::proxy::labels::{label_model, tool_type_label, LabelSet};
use nim_proxy::proxy::plan::{plan_chat, plan_messages, MessagesServe, Serve};
use nim_proxy::proxy::replies::{deadline_exceeded, gateway_timeout};
use nim_proxy::proxy::retry::{backoff_for, retryable, show_status};
use nim_proxy::proxy::shape::request_shape;
use nim_proxy::proxy::upstream::{models_url, relay, upstream_request};
use nim_proxy::proxy::usage::{recorded_tokens, Observation};
use nim_proxy::proxy::{
    bounded_label, count_tools, is_json_mode, label_path, sanitize_label, tool_choice_mode,
};

fn val(text: &str) -> Json {
    codec::parse(text).expect("test JSON")
}

#[test]
fn sanitize_strips_injection_chars() {
    // Quotes, braces, angle brackets, newlines, ANSI escapes all removed.
    assert_eq!(sanitize_label("meta/llama-3.3-70b"), "meta/llama-3.3-70b");
    assert_eq!(sanitize_label("a\"} fake_metric 1"), "afake_metric1");
    assert_eq!(
        sanitize_label("<img src=x onerror=alert(1)>"),
        "imgsrcxonerroralert1"
    );
    assert_eq!(sanitize_label("line1\nline2"), "line1line2");
    assert_eq!(sanitize_label("\x1b[31mred"), "31mred");
    assert_eq!(sanitize_label(""), "none");
    assert_eq!(sanitize_label("!!!"), "none");
}

#[test]
fn sanitize_caps_length() {
    let long = "a".repeat(200);
    assert_eq!(sanitize_label(&long).len(), 64);
}

#[test]
fn bounded_label_caps_cardinality() {
    let mut seen = LabelSet::new();
    assert_eq!(bounded_label(&mut seen, "m1".into(), 2), "m1");
    assert_eq!(bounded_label(&mut seen, "m2".into(), 2), "m2");
    // Third distinct value exceeds the cap -> "other".
    assert_eq!(bounded_label(&mut seen, "m3".into(), 2), "other");
    // Already-seen values still pass through after the cap.
    assert_eq!(bounded_label(&mut seen, "m1".into(), 2), "m1");
}

#[test]
fn path_label_is_allowlisted() {
    assert_eq!(label_path("/v1/chat/completions"), "/v1/chat/completions");
    assert_eq!(label_path("/v1/embeddings"), "/v1/embeddings");
    assert_eq!(label_path("/v1/anything-else"), "other");
    assert_eq!(label_path("/v1/../etc"), "other");
}

#[test]
fn tool_choice_mode_maps_unknown_strings_to_other() {
    // auto / none / required / named are covered elsewhere; an unrecognized
    // string must collapse to the bounded "other" label, not pass through.
    assert_eq!(
        tool_choice_mode(&val(r#"{"tool_choice": "banana"}"#)),
        "other"
    );
}

#[test]
fn tool_choice_and_shape_readers() {
    let auto = val(r#"{"tools": [{}], "tool_choice": "auto"}"#);
    assert_eq!(tool_choice_mode(&auto), "auto");
    let named = val(r#"{"tool_choice": {"type": "function"}}"#);
    assert_eq!(tool_choice_mode(&named), "named");
    // tools present, no explicit choice -> provider default (auto)
    assert_eq!(
        tool_choice_mode(&val(r#"{"tools": [{}]}"#)),
        "auto"
    );

    assert_eq!(
        count_tools(&val(r#"{"tools": [{}, {}, {}]}"#)),
        Some(3)
    );
    assert_eq!(
        count_tools(&val(r#"{"functions": [{}]}"#)),
        Some(1)
    );
    assert_eq!(count_tools(&val(r#"{"model": "x"}"#)), None);

    assert!(is_json_mode(
        &val(r#"{"response_format": {"type": "json_object"}}"#)
    ));
    assert!(!is_json_mode(
        &val(r#"{"response_format": {"type": "text"}}"#)
    ));
    assert!(!is_json_mode(&val(r#"{"model": "x"}"#)));
}

fn print(j: &Json) -> String {
    codec::print(j)
}

fn text(b: &Bytes) -> String {
    String::from_utf8(b.to_vec()).expect("UTF-8")
}

fn bytes(s: &str) -> Bytes {
    Bytes::copy_from_slice(s.as_bytes())
}

fn one(value: &str) -> Vec<Option<String>> {
    vec![Some(value.to_owned())]
}

#[test]
fn labels_are_safe_and_bounded() {
    let mut seen = LabelSet::new();
    for i in 0..300 {
        let label = label_model(&mut seen, &format!("model-{i}\n"));
        if i < 256 {
            assert_eq!(label, format!("model-{i}"));
        } else {
            assert_eq!(label, "other");
        }
    }
    assert_eq!(seen.len(), 256);
    assert!(seen.contains("model-0") && !seen.contains("model-299"));
    assert_eq!(label_model(&mut seen, "model-7"), "model-7");
    assert_eq!(tool_type_label(ToolFamily::Custom), "custom");
}

#[test]
fn deadlines_are_one_unsigned_decimal() {
    assert_eq!(parse_request_deadline(&vec![]), Ok(None));
    assert_eq!(parse_request_deadline(&one("1500")), Ok(Some(1500)));
    assert_eq!(parse_request_deadline(&one("0")), Ok(Some(0)));
    assert_eq!(
        parse_request_deadline(&one("18446744073709551615")),
        Ok(Some(u64::MAX))
    );
    for bad in ["", "-1", "+1", " 1", "1.5", "abc", "18446744073709551616"] {
        assert_eq!(parse_request_deadline(&one(bad)), Err(()), "{bad:?}");
    }
    assert_eq!(parse_request_deadline(&vec![None]), Err(()));
    let two = vec![Some("1".to_owned()), Some("1".to_owned())];
    assert_eq!(parse_request_deadline(&two), Err(()));
}

#[test]
fn requests_are_guarded_in_order() {
    let keyed = Some(vec![
        (sha256_hex("secret"), "first".to_owned()),
        (sha256_hex("secret"), "second".to_owned()),
    ]);
    let open = None;
    let guard = |inflight, clients: &Option<Vec<(String, String)>>, auth, deadlines| {
        shared_guard(inflight, 2, clients, auth, &deadlines)
    };
    // Past the cap nothing else is looked at.
    assert_eq!(
        guard(3, &keyed, None, one("bad")).unwrap_err(),
        Refusal::Overloaded
    );
    assert_eq!(
        guard(2, &keyed, None, one("bad")).unwrap_err(),
        Refusal::Unauthorized
    );
    assert_eq!(
        guard(2, &keyed, Some("bearer secret"), vec![]).unwrap_err(),
        Refusal::Unauthorized
    );
    assert_eq!(
        guard(2, &keyed, Some("Bearer secret"), one("bad")).unwrap_err(),
        Refusal::InvalidDeadline
    );
    let ok = guard(2, &keyed, Some("Bearer secret"), one("5")).unwrap();
    assert_eq!((ok.client.as_str(), ok.deadline_ms), ("second", Some(5)));
    let ok = guard(1, &open, None, vec![]).unwrap();
    assert_eq!((ok.client.as_str(), ok.deadline_ms), ("local", None));
}

#[test]
fn refusals_have_their_answers() {
    let r = refusal_reply(Refusal::Overloaded, 64);
    assert_eq!((r.status, r.header), (503, Some(("retry-after", "5"))));
    assert_eq!(
        text(&r.body),
        r#"{"error":{"code":"overloaded","message":"proxy at capacity (64 concurrent requests); retry shortly","type":"proxy_error"}}"#
    );
    let r = refusal_reply(Refusal::Unauthorized, 64);
    assert_eq!((r.status, r.header), (401, Some(("www-authenticate", "Bearer"))));
    let r = refusal_reply(Refusal::InvalidDeadline, 64);
    assert_eq!(r.status, 400);
    assert!(text(&r.body).contains("invalid_deadline"));
    let r = gateway_timeout(30, 2);
    assert_eq!(r.status, 504);
    assert!(text(&r.body)
        .contains("no upstream slot became available within 30s (all 2 keys saturated)"));
    let r = deadline_exceeded();
    assert_eq!(r.status, 504);
    assert!(text(&r.body).contains("deadline_exceeded"));
}

#[test]
fn retries_wait_out_what_is_transient() {
    for status in [429, 500, 502, 503, 504] {
        assert!(retryable(status), "{status}");
    }
    for status in [200, 400, 401, 404, 501, 505] {
        assert!(!retryable(status), "{status}");
    }
    assert_eq!(backoff_for(Some("7")), 7);
    assert_eq!(backoff_for(Some("+7")), 7);
    assert_eq!(backoff_for(Some("soon")), 10);
    assert_eq!(backoff_for(None), 10);
    assert_eq!(show_status(404), "404 Not Found");
    assert_eq!(show_status(7), "7");
}

#[test]
fn permits_are_polled_until_the_deadline() {
    assert_eq!(permit_step(true, 100, 10, 0), PermitStep::Granted);
    assert_eq!(permit_step(false, 90, 10, 100), PermitStep::Poll);
    assert_eq!(permit_step(false, 91, 10, 100), PermitStep::Expired);
    assert!(heartbeat_due(5, 5) && !heartbeat_due(4, 5));
    assert!(gated(true, "m", "/v1/chat/completions"));
    assert!(gated(true, "m", "/v1/completions"));
    assert!(!gated(true, "none", "/v1/chat/completions"));
    assert!(!gated(true, "m", "/v1/embeddings"));
    assert!(!gated(false, "m", "/v1/completions"));
}

#[test]
fn conversations_stick_to_a_lane() {
    let turn = |extra: &str| {
        val(&format!(
            r#"{{"model":"m","messages":[{{"role":"system","content":"s"}},{{"role":"user","content":"u"}}{extra}]}}"#
        ))
    };
    let a = affinity(&turn(""), 7).expect("a hint");
    assert!(a < 7);
    assert_eq!(
        affinity(&turn(r#",{"role":"assistant","content":"x"}"#), 7),
        Some(a),
        "later turns do not move it"
    );
    assert_eq!(affinity(&val(r#"{"model":"m"}"#), 7), None);
    assert_eq!(affinity(&turn(""), 1), Some(0));
    assert_eq!(lane_of(10, 3), 1);
}

#[test]
fn calls_are_planned() {
    let mut labels = LabelSet::new();
    let no_inject = LabelSet::new();
    let plan = plan_chat(
        true,
        "/v1/models",
        bytes(""),
        &mut labels,
        &no_inject,
        false,
        2,
    );
    assert!(matches!(plan.serve, Serve::Models));
    assert_eq!(plan.model, "none");
    assert_eq!(plan.path, "/v1/models");

    let body = r#"{"messages":[],"model":"m","stream":true}"#;
    let plan = plan_chat(
        false,
        "/v1/chat/completions",
        bytes(body),
        &mut labels,
        &no_inject,
        false,
        2,
    );
    match plan.serve {
        Serve::Stream {
            body: sent,
            fallback,
        } => {
            assert_eq!(
                text(&sent),
                r#"{"messages":[],"model":"m","stream":true,"stream_options":{"include_usage":true}}"#
            );
            assert_eq!(text(&fallback.expect("the untouched body")), body);
        }
        other => panic!("{other:?}"),
    }
    assert!(plan.prefer.is_some());
    assert!(plan.shape.is_some());

    // Nothing is injected under strict passthrough, where the body says
    // something itself, or where the model is known to reject it.
    let mut rejecting = LabelSet::new();
    rejecting.insert("m".into());
    for (path, strict, skip, body) in [
        ("/v1/chat/completions", true, &no_inject, body),
        ("/v1/chat/completions", false, &rejecting, body),
        ("/v1/completions", false, &no_inject, body),
        (
            "/v1/chat/completions",
            false,
            &no_inject,
            r#"{"model":"m","stream":true,"stream_options":null}"#,
        ),
    ] {
        match plan_chat(false, path, bytes(body), &mut labels, skip, strict, 2).serve {
            Serve::Stream {
                body: sent,
                fallback,
            } => {
                assert_eq!(text(&sent), body);
                assert!(fallback.is_none());
            }
            other => panic!("{other:?}"),
        }
    }
    let plan = plan_chat(
        false,
        "/v1/embeddings",
        bytes("not json"),
        &mut labels,
        &no_inject,
        false,
        0,
    );
    assert!(matches!(plan.serve, Serve::Buffered { .. }));
    assert!(plan.shape.is_none() && plan.prefer.is_none());
}

#[test]
fn messages_requests_are_planned() {
    let no_inject = LabelSet::new();
    let plan = |body: &str| {
        let mut labels = LabelSet::new();
        plan_messages(&bytes(body), "", &mut labels, &no_inject, false, 2)
    };
    let refused = plan("[1]").expect_err("no object");
    assert_eq!(refused.reply.status, 400);
    assert!(!refused.server_rejected);
    assert_eq!(
        text(&refused.reply.body),
        r#"{"error":{"code":"invalid_json","message":"request body must be a JSON object","type":"proxy_error"}}"#
    );
    let refused = plan(r#"{"model":"m","mcp_servers":[{}],"messages":[]}"#).unwrap_err();
    assert!(refused.server_rejected);
    assert!(text(&refused.reply.body).contains("\"server_tools_unsupported\""));
    let refused = plan(r#"{"messages":[]}"#).unwrap_err();
    assert!(!refused.server_rejected);
    assert!(text(&refused.reply.body).starts_with(r#"{"error":{"code":"missing_model""#));

    let p = plan(r#"{"model":"m","stream":true,"messages":[{"role":"user","content":"hi"}]}"#).unwrap();
    assert_eq!((p.request_model.as_str(), p.model.as_str()), ("m", "m"));
    match p.serve {
        MessagesServe::Stream {
            body,
            fallback,
            meta,
        } => {
            assert!(text(&body).contains("include_usage"));
            assert!(!text(&fallback.unwrap()).contains("include_usage"));
            assert_eq!(meta.model, "m");
        }
        other => panic!("{other:?}"),
    }
    let p = plan(r#"{"model":"m","tools":[{"type":"web_search_20250305"}],"messages":[]}"#).unwrap();
    assert!(matches!(p.serve, MessagesServe::Search));
    let p = plan(r#"{"model":"m","messages":[]}"#).unwrap();
    assert!(matches!(p.serve, MessagesServe::Buffered { .. }));
}

#[test]
fn upstream_answers_are_finished() {
    let completion = r#"{"id":"u","choices":[{"message":{"content":"hi"},"finish_reason":"stop"}]}"#;
    let r = anthropic_finish(200, Some(bytes(completion)), "m", &[]);
    assert_eq!(r.status, 200);
    assert!(text(&r.body).contains("\"id\":\"msg_u\""));
    // A 2xx is never dropped.
    let r = anthropic_finish(200, Some(bytes("not json")), "m", &[]);
    assert_eq!((r.status, text(&r.body).as_str()), (200, "not json"));
    let r = anthropic_finish(200, None, "m", &[]);
    assert_eq!(r.status, 502);
    for (status, kind) in [
        (400, "invalid_request_error"),
        (401, "authentication_error"),
        (403, "authentication_error"),
        (404, "not_found_error"),
        (429, "rate_limit_error"),
        (500, "api_error"),
        (503, "overloaded_error"),
        (504, "api_error"),
        (418, "api_error"),
    ] {
        assert_eq!(kind_of_status(status), kind);
        let r = anthropic_finish(status, Some(bytes(r#"{"detail":"why"}"#)), "m", &[]);
        assert_eq!(r.status, status);
        assert_eq!(
            text(&r.body),
            format!(r#"{{"error":{{"message":"why","type":"{kind}"}},"type":"error"}}"#)
        );
    }
    let r = anthropic_finish(
        500,
        Some(bytes(r#"{"error":{"message":"inner"},"message":"outer"}"#)),
        "m",
        &[],
    );
    assert!(text(&r.body).contains("\"inner\""));
    let r = anthropic_finish(500, None, "m", &[]);
    assert!(text(&r.body).contains("upstream request failed"));
}

fn frames(m: &Move) -> String {
    m.frames.iter().map(text).collect()
}

#[test]
fn a_plain_stream_is_piped_through() {
    let (mut flow, opening) = Flow::start(bytes("injected"), Some(bytes("untouched")), None);
    assert_eq!(opening.iter().map(text).collect::<String>(), ": connected\n\n");
    assert_eq!(frames(&flow.step(Event::Heartbeat)), ": heartbeat\n\n");
    flow.step(Event::Permit(true));
    flow.step(Event::Slot(true));
    assert_eq!(text(&flow.body()), "injected");
    // The model rejects the injected field: once more, untouched.
    let m = flow.step(Event::Status {
        status: 400,
        retry_after: None,
        late: false,
    });
    assert_eq!(m.effect, Effect::RememberRejection);
    assert_eq!(text(&flow.body()), "untouched");
    flow.step(Event::Permit(true));
    flow.step(Event::Slot(true));
    let m = flow.step(Event::ConnectFailed);
    assert_eq!(m.effect, Effect::CoolConnect { secs: 5 });
    flow.step(Event::Permit(true));
    flow.step(Event::Slot(true));
    flow.step(Event::Status {
        status: 429,
        retry_after: Some("3".into()),
        late: false,
    });
    let m = flow.step(Event::Body {
        text: "slow down".into(),
        exhausted: false,
    });
    assert_eq!(
        m.effect,
        Effect::CoolStatus {
            status: 429,
            secs: 3
        }
    );
    assert_eq!(frames(&m), ": retrying\n\n");
    flow.step(Event::Permit(true));
    flow.step(Event::Slot(true));
    flow.step(Event::Status {
        status: 503,
        retry_after: None,
        late: false,
    });
    let m = flow.step(Event::Body {
        text: "".into(),
        exhausted: true,
    });
    assert_eq!(m.effect, Effect::NoteExhausted, "the lane is spared");
    flow.step(Event::Permit(true));
    flow.step(Event::Slot(true));
    flow.step(Event::Status {
        status: 200,
        retry_after: None,
        late: false,
    });
    assert_eq!(frames(&flow.step(Event::Chunk(bytes("data: x\n\n")))), "data: x\n\n");
    let m = flow.step(Event::End);
    assert!(m.frames.is_empty() && m.outcome.is_none());
    let m = flow.step(Event::Flushed);
    assert_eq!(m.outcome, Some(Outcome::Completed));
    assert!(flow.is_done());
    // After the end nothing happens any more.
    let m = flow.step(Event::Deadline);
    assert!(m.frames.is_empty() && m.outcome.is_none());
}

fn relaying(translator: Option<StreamTranslator>) -> Flow {
    let (mut flow, _) = Flow::start(bytes("b"), None, translator);
    flow.step(Event::Permit(true));
    flow.step(Event::Slot(true));
    flow.step(Event::Status {
        status: 200,
        retry_after: None,
        late: false,
    });
    flow
}

#[test]
fn a_bridge_stream_is_translated() {
    let (mut flow, opening) = Flow::start(bytes("b"), None, Some(StreamTranslator::new()));
    assert!(opening.is_empty(), "kept for the replay");
    assert!(flow.step(Event::Heartbeat).frames.is_empty());
    flow.step(Event::Permit(true));
    flow.step(Event::Slot(true));
    flow.step(Event::Status {
        status: 200,
        retry_after: None,
        late: false,
    });
    let m = flow.step(Event::Chunk(bytes(
        "data: {\"choices\":[{\"delta\":{\"content\":\"hi\"}}]}\n\n",
    )));
    assert!(frames(&m).starts_with("event: message_start"));
    let m = flow.step(Event::Broken);
    assert!(frames(&m).starts_with("event: error\n"), "the dialect is committed");
    assert_eq!(m.outcome, Some(Outcome::Broken));

    let mut flow = relaying(Some(StreamTranslator::new()));
    let m = flow.step(Event::End);
    assert_eq!(frames(&m), ": connected\n\n", "no event: replayed byte for byte");
}

#[test]
fn streams_end_in_every_way() {
    let error = |code: &str, message: &str| {
        format!(
            "data: {{\"error\":{{\"code\":\"{code}\",\"message\":\"{message}\",\"type\":\"proxy_error\"}}}}\n\ndata: [DONE]\n\n"
        )
    };
    let m = relaying(None).step(Event::Stalled);
    assert_eq!(
        (frames(&m), m.outcome),
        (
            error("upstream_unavailable", "upstream stream stalled"),
            Some(Outcome::Stalled)
        )
    );
    let m = relaying(None).step(Event::Broken);
    assert_eq!(
        frames(&m),
        error("upstream_unavailable", "upstream stream interrupted")
    );
    let m = relaying(None).step(Event::Deadline);
    assert_eq!(
        (frames(&m), m.outcome),
        (
            error("deadline_exceeded", "proxy request deadline exceeded"),
            Some(Outcome::DeadlineExceeded)
        )
    );
    let m = relaying(None).step(Event::Gone);
    assert_eq!((frames(&m), m.outcome), (String::new(), Some(Outcome::Disconnected)));
    let (mut flow, _) = Flow::start(bytes("b"), None, None);
    let m = flow.step(Event::Permit(false));
    assert_eq!(
        (frames(&m), m.outcome),
        (
            error(
                "upstream_unavailable",
                "proxy timed out waiting for an upstream slot"
            ),
            Some(Outcome::TimedOut)
        )
    );
    let (mut flow, _) = Flow::start(bytes("b"), None, None);
    flow.step(Event::Permit(true));
    flow.step(Event::Slot(true));
    let m = flow.step(Event::Status {
        status: 502,
        retry_after: None,
        late: true,
    });
    assert_eq!(
        frames(&m),
        error(
            "upstream_unavailable",
            "upstream unavailable, retries exhausted"
        )
    );
    let (mut flow, _) = Flow::start(bytes("b"), None, None);
    flow.step(Event::Permit(true));
    flow.step(Event::Slot(true));
    flow.step(Event::Status {
        status: 404,
        retry_after: None,
        late: false,
    });
    let m = flow.step(Event::Body {
        text: "nope".into(),
        exhausted: false,
    });
    assert_eq!(
        (frames(&m), m.outcome),
        (
            error("upstream_unavailable", "upstream error 404 Not Found: nope"),
            Some(Outcome::Refused(404))
        )
    );
    for (outcome, label) in [
        (Outcome::Completed, "200"),
        (Outcome::TimedOut, "504"),
        (Outcome::Refused(404), "404"),
        (Outcome::Disconnected, "disconnect"),
        (Outcome::Stalled, "stall"),
        (Outcome::Broken, "stream_error"),
        (Outcome::DeadlineExceeded, "deadline"),
    ] {
        assert_eq!(label_of_outcome(outcome), label);
    }
}

#[test]
fn a_buffered_exchange_is_paced() {
    let step = |phase, event| step_buffered(phase, event);
    let status = |status, late| BufferedEvent::Status {
        status,
        retry_after: Some("9".into()),
        late,
    };
    let mut phase = BufferedPhase::Permit;
    let (p, _) = step(phase, BufferedEvent::Slot(true));
    assert_eq!(p, BufferedPhase::Permit, "the permit comes first");
    phase = step(phase, BufferedEvent::Permit(true)).0;
    phase = step(phase, BufferedEvent::Slot(true)).0;
    assert_eq!(phase, BufferedPhase::Request);
    let (p, e) = step(phase, BufferedEvent::ConnectFailed);
    assert_eq!((p, e), (BufferedPhase::Permit, Effect::CoolConnect { secs: 5 }));
    let (p, _) = step(phase, status(500, false));
    assert_eq!(
        p,
        BufferedPhase::RetryBody {
            status: 500,
            backoff_secs: 9
        }
    );
    assert_eq!(
        step(p, BufferedEvent::Body { exhausted: false }),
        (
            BufferedPhase::Permit,
            Effect::CoolStatus {
                status: 500,
                secs: 9
            }
        )
    );
    assert_eq!(
        step(p, BufferedEvent::Body { exhausted: true }),
        (BufferedPhase::Permit, Effect::NoteExhausted)
    );
    assert_eq!(
        step(phase, status(500, true)).0,
        BufferedPhase::Relay { status: 500 },
        "past the deadline it is passed on"
    );
    assert_eq!(step(phase, status(400, false)).0, BufferedPhase::Relay { status: 400 });
    assert_eq!(
        step(BufferedPhase::Permit, BufferedEvent::Permit(false)).0,
        BufferedPhase::TimedOut
    );
    assert_eq!(
        step(BufferedPhase::Slot, BufferedEvent::Slot(false)).0,
        BufferedPhase::TimedOut
    );
}

fn executor() -> Executor {
    let body = val(r#"{"model":"m","tools":[{"type":"web_search_20250305"}],"messages":[{"role":"user","content":"q"}]}"#);
    let mut payload = to_chat_payload(&body, "").unwrap();
    let meta = payload.web_search.take().expect("an offer");
    Executor::start(&payload, "client", meta)
}

fn searching(query: &str) -> Json {
    val(&format!(
        r#"{{"id":"u","choices":[{{"message":{{"tool_calls":[{{"id":"c1","function":{{"name":"web_search","arguments":"{{\"query\":\"{query}\"}}"}}}}]}},"finish_reason":"tool_calls"}}],"usage":{{"prompt_tokens":2,"completion_tokens":1}}}}"#
    ))
}

fn run(e: &mut Executor, completion: Json) {
    let calls = match e.decide(&completion) {
        Some(RoundStep::Search(calls)) => calls,
        _ => panic!("a search was called for"),
    };
    let mut outcomes = Vec::new();
    for c in &calls {
        outcomes.push(finish_search(
            &c.id,
            "q",
            Some(r#"[{"url":"https://x","title":"t"}]"#),
            SearchFormat::Json,
            1,
            0,
        ));
    }
    e.fold(completion, &outcomes);
}

#[test]
fn searches_are_run_and_shown() {
    let mut e = executor();
    assert!(e.may_run());
    run(&mut e, searching("q"));
    let body: serde_json::Value = serde_json::from_str(&print(&e.next_body())).unwrap();
    let msgs = body["messages"].as_array().unwrap();
    assert_eq!(msgs.len(), 3, "{body}");
    assert_eq!(msgs[1]["tool_calls"][0]["id"], "c1");
    assert_eq!(msgs[2]["tool_call_id"], "c1");
    let last = val(
        r#"{"id":"v","choices":[{"message":{"content":"done"},"finish_reason":"stop"}],"usage":{"prompt_tokens":5,"completion_tokens":7}}"#,
    );
    let m = match e.decide(&last) {
        Some(RoundStep::Answer(m)) => m,
        _ => panic!("an answer"),
    };
    let m: serde_json::Value = serde_json::from_str(&print(&m)).unwrap();
    assert_eq!(m["usage"]["input_tokens"], 7);
    assert_eq!(m["usage"]["output_tokens"], 8);
    assert_eq!(m["usage"]["server_tool_use"]["web_search_requests"], 1);
    let content = m["content"].as_array().unwrap();
    assert_eq!(content[0]["text"], "done");
    assert_eq!(content[1]["type"], "web_search_tool_result");
    assert_eq!(content.len(), 2);
}

#[test]
fn the_search_loop_gives_up() {
    let mut e = executor();
    for _ in 0..WEB_SEARCH_MAX_ITERATIONS {
        assert!(e.may_run());
        run(&mut e, searching("again"));
    }
    assert!(!e.may_run());
    let m: serde_json::Value = serde_json::from_str(&print(&e.give_up().unwrap())).unwrap();
    assert_eq!(m["stop_reason"], "tool_use");
    assert_eq!(m["usage"]["input_tokens"], 8, "the last round counts once");
    let content = m["content"].as_array().unwrap();
    assert_eq!(content.len(), 6);
    assert_eq!(content[1]["content"][0]["error_code"], "max_iterations_exceeded");
}

#[test]
fn digests_are_compared_to_the_last_character() {
    let digest = sha256_hex("secret");
    assert!(ct_eq(&digest, &sha256_hex("secret")));
    assert!(ct_eq("", ""));
    for i in 0..digest.len() {
        let mut other: Vec<char> = digest.chars().collect();
        other[i] = 'x';
        let other: String = other.into_iter().collect();
        assert!(!ct_eq(&digest, &other), "{i}");
    }
    assert!(!ct_eq(&digest, &digest[..63]));
    assert!(!ct_eq("a\u{e9}", "a\u{e8}"));
}

#[test]
fn a_round_is_answered_by_status_and_body() {
    let e = executor();
    let done = r#"{"choices":[{"message":{"content":"x"},"finish_reason":"stop"}]}"#;
    assert!(matches!(
        e.on_answer(503, &Bytes::from(done)),
        RoundAnswer::Refused
    ));
    assert!(matches!(
        e.on_answer(200, &Bytes::from("not json")),
        RoundAnswer::PassOn
    ));
    assert!(matches!(
        e.on_answer(200, &Bytes::from(done)),
        RoundAnswer::Step(_, RoundStep::Answer(_))
    ));
    assert!(matches!(
        e.on_answer_parsed(204, Some(searching("q"))),
        RoundAnswer::Step(_, RoundStep::Search(_))
    ));
    let huge = val(
        r#"{"choices":[{"message":{"content":"x"}}],"usage":{"prompt_tokens":18446744073709551615}}"#,
    );
    let mut e = executor();
    run(&mut e, searching("q"));
    assert!(matches!(
        e.on_answer_parsed(200, Some(huge)),
        RoundAnswer::Uncountable
    ));
}

#[test]
fn counts_that_do_not_add_up_are_told() {
    let mut e = executor();
    run(&mut e, searching("q"));
    let huge = val(
        r#"{"choices":[{"message":{"content":"x"},"finish_reason":"stop"}],"usage":{"prompt_tokens":18446744073709551615}}"#,
    );
    assert!(!e.countable(&huge));
    assert!(e.decide(&huge).is_none());
}

#[test]
fn the_catalog_is_cached() {
    assert!(catalog_fresh(Some(9), 10));
    assert!(!catalog_fresh(Some(10), 10));
    assert!(!catalog_fresh(None, 10));
    assert_eq!(catalog_answer(200, None), CatalogAnswer::Store);
    assert_eq!(catalog_answer(404, None), CatalogAnswer::PassOn);
    assert_eq!(
        catalog_answer(503, Some("4")),
        CatalogAnswer::CoolDown { secs: 4 }
    );
}

#[test]
fn only_sound_counts_are_recorded() {
    let r = recorded_tokens(
        Observation::Measured(3),
        Observation::Estimated(4),
        Observation::Measured(0),
        Observation::Measured(2),
    );
    assert_eq!((r.prompt, r.completion, r.source), (Some(3), Some(4), "estimate"));
    assert_eq!((r.reasoning, r.tool_calls), (None, Some(2)));
    let r = recorded_tokens(
        Observation::Estimated(3),
        Observation::Invalid,
        Observation::Unavailable,
        Observation::Estimated(1),
    );
    assert_eq!((r.prompt, r.completion, r.source), (None, None, "usage"));
    assert_eq!((r.reasoning, r.tool_calls), (None, None));
}

#[test]
fn requests_go_upstream_with_the_lanes_key() {
    let r = upstream_request(
        "https://up.example",
        "/v1/chat/completions?x=1",
        Some(b"application/json"),
        None,
        "nvapi",
        &bytes("{}"),
    );
    assert_eq!(r.url, "https://up.example/v1/chat/completions?x=1");
    assert_eq!(
        r.headers,
        vec![
            ("authorization", b"Bearer nvapi".to_vec()),
            ("content-type", b"application/json".to_vec()),
        ]
    );
    assert_eq!(text(&r.body.unwrap()), "{}");
    let r = upstream_request("u", "/p", None, Some(b"*/*"), "k", &bytes(""));
    assert_eq!(r.headers[1], ("accept", b"*/*".to_vec()));
    assert!(r.body.is_none());
    assert_eq!(models_url("https://up.example"), "https://up.example/v1/models");
}

#[test]
fn answers_are_relayed_as_they_are() {
    let r = relay(404, Some("text/plain"), Some(bytes("x"))).unwrap();
    assert_eq!((r.status, r.content_type.as_str(), r.observe), (404, "text/plain", false));
    let r = relay(201, None, Some(bytes("x"))).unwrap();
    assert_eq!((r.content_type.as_str(), r.observe), ("application/json", true));
    assert_eq!(relay(200, None, None).unwrap_err().status, 502);
    assert_eq!(relay(7, None, Some(bytes(""))).unwrap().status, 502);
}

#[test]
fn shapes_are_counted() {
    let s = request_shape(
        Some(&val(
            r#"{"messages":[{},{}],"tools":[{}],"max_tokens":5,"temperature":0.5,"response_format":{"type":"json_schema"}}"#,
        )),
        true,
    );
    assert_eq!((s.messages, s.tools, s.tool_choice), (Some(2), Some(1), Some("auto")));
    assert_eq!((s.max_tokens, s.json_mode, s.stream), (Some(5), true, true));
    let s = request_shape(None, false);
    assert_eq!((s.messages, s.tools, s.tool_choice), (None, None, None));
}

#[test]
fn labels_never_outgrow_the_larger_of_cap_and_start() {
    let mut seen = LabelSet::new();
    for s in ["a", "b", "c"] {
        seen.insert(s.into());
    }
    // More than the cap already: nothing is added and nothing is lost.
    assert_eq!(bounded_label(&mut seen, "d".into(), 2), "other");
    assert_eq!(bounded_label(&mut seen, "c".into(), 2), "c");
    assert_eq!(seen.len(), 3);
    assert_eq!(bounded_label(&mut seen, "d".into(), 4), "d");
    assert_eq!(bounded_label(&mut seen, "e".into(), 4), "other");
    assert_eq!(seen.len(), 4);
    for s in ["a", "b", "c", "d"] {
        assert!(seen.contains(s));
    }
}
