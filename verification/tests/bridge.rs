//! The Messages bridge: requests in, messages out.
use nim_proxy::bridge::blocks::IdState;
use nim_proxy::bridge::thinking::synthetic_thinking_signature;
use nim_proxy::bridge::{
    BridgeError, ThinkingMeta, ToolFamily, ToolMeta, INTERLEAVED_THINKING_BETA,
};
use nim_proxy::codec;
use nim_proxy::json::Json;
use serde_json::Value;

/// A JSON value, read by the parser the library does not go through.
fn val(text: &str) -> Value {
    serde_json::from_str(text).expect("test JSON")
}

/// `val` with `"@0"`, `"@1"`, ... replaced by values.
fn fill(text: &str, values: &[Value]) -> Value {
    let mut text = text.to_owned();
    for (i, v) in values.iter().enumerate() {
        text = text.replace(&format!("\"@{i}\""), &v.to_string());
    }
    val(&text)
}

fn lib(v: &Value) -> Json {
    codec::parse(&v.to_string()).expect("library JSON")
}

fn out(j: &Json) -> Value {
    val(&codec::print(j))
}

/// The request transform's result, with values to index into.
#[derive(Debug)]
struct Chat {
    json: Value,
    tools: Vec<Value>,
    tool_meta: Vec<ToolMeta>,
    tool_choice: Option<Value>,
    forced_tool: bool,
    thinking: ThinkingMeta,
}

fn to_chat_payload(body: &Value, beta: &str) -> Result<Chat, BridgeError> {
    let p = nim_proxy::bridge::to_chat_payload(&lib(body), beta)?;
    Ok(Chat {
        json: out(&p.json),
        tools: p.tools.iter().map(out).collect(),
        tool_meta: p.tool_meta,
        tool_choice: p.tool_choice.as_ref().map(out),
        forced_tool: p.forced_tool,
        thinking: p.thinking,
    })
}

fn chat_to_message(completion: &Value, model: &str, meta: &[ToolMeta]) -> Value {
    out(&nim_proxy::bridge::chat_to_message(&lib(completion), model, meta))
}

fn tool_use_to_call(block: &Value, ids: &mut IdState) -> Value {
    out(&nim_proxy::bridge::blocks::tool_use_to_call(&lib(block), ids))
}

fn cm(completion: &Value) -> Value {
    chat_to_message(completion, "client-model", &[])
}

#[test]
fn green_chat_to_message_minimal_text() {
    let m = cm(&val(r#"{
        "id": "chatcmpl-1",
        "model": "nim-m",
        "choices": [{ "message": { "content": "hi" }, "finish_reason": "stop" }],
        "usage": { "prompt_tokens": 5, "completion_tokens": 7 }
    }"#));
    assert_eq!(m["id"], "msg_chatcmpl-1");
    assert_eq!(m["type"], "message");
    assert_eq!(m["role"], "assistant");
    assert_eq!(
        m["model"], "client-model",
        "request model echoed, not upstream"
    );
    assert_eq!(m["content"], val(r#"[{ "type": "text", "text": "hi" }]"#));
    assert_eq!(m["stop_reason"], "end_turn");
    assert_eq!(m["stop_sequence"], Value::Null);
    assert_eq!(m["usage"], val(r#"{ "input_tokens": 5, "output_tokens": 7 }"#));
}

#[test]
fn green_chat_to_message_tool_calls() {
    let m = cm(&val(r#"{
        "id": "chatcmpl-2",
        "choices": [{
            "message": {
                "content": null,
                "tool_calls": [{
                    "id": "call_1",
                    "type": "function",
                    "function": { "name": "bash", "arguments": "{\"cmd\":\"ls\"}" }
                }]
            },
            "finish_reason": "tool_calls"
        }]
    }"#));
    assert_eq!(
        m["content"],
        val(r#"[
            { "type": "tool_use", "id": "call_1", "name": "bash", "input": { "cmd": "ls" } }
        ]"#)
    );
    assert_eq!(m["stop_reason"], "tool_use");
}

#[test]
fn green_chat_to_message_length_maps_to_max_tokens() {
    let m = cm(&val(r#"{
        "choices": [{ "message": { "content": "trunc" }, "finish_reason": "length" }]
    }"#));
    assert_eq!(m["stop_reason"], "max_tokens");
}

#[test]
fn green_chat_to_message_bad_arguments_preserved_as_string() {
    let m = cm(&val(r#"{
        "choices": [{
            "message": {
                "tool_calls": [{ "id": "c", "function": { "name": "f", "arguments": "oops" } }]
            },
            "finish_reason": "tool_calls"
        }]
    }"#));
    assert_eq!(m["content"][0]["type"], "tool_use");
    assert_eq!(
        m["content"][0]["input"], "oops",
        "unparseable arguments kept as the raw string"
    );
}

#[test]
fn green_chat_to_message_missing_usage_is_zero() {
    let m =
        cm(&val(r#"{ "choices": [{ "message": { "content": "x" }, "finish_reason": "stop" }] }"#));
    assert_eq!(m["usage"], val(r#"{ "input_tokens": 0, "output_tokens": 0 }"#));
}

#[test]
fn green_chat_to_message_missing_upstream_id_fallback() {
    let m =
        cm(&val(r#"{ "choices": [{ "message": { "content": "x" }, "finish_reason": "stop" }] }"#));
    assert_eq!(
        m["id"], "msg_",
        "deterministic fallback when upstream omits the id"
    );
}

#[test]
fn green_chat_to_message_text_and_tool_calls_both() {
    let m = cm(&val(r#"{
        "choices": [{
            "message": {
                "content": "running now",
                "tool_calls": [{ "id": "c2", "function": { "name": "f", "arguments": "1" } }]
            },
            "finish_reason": "content_filter"
        }]
    }"#));
    assert_eq!(
        m["content"][0],
        val(r#"{ "type": "text", "text": "running now" }"#)
    );
    assert_eq!(m["content"][1]["type"], "tool_use");
    assert_eq!(m["content"][1]["input"], 1);
    // unknown finish_reason with tool_use blocks present resolves to tool_use
    assert_eq!(m["stop_reason"], "tool_use");
}

#[test]
fn green_chat_to_message_no_choices_is_empty_message() {
    let m = cm(&val(r#"{ "id": "u", "choices": [] }"#));
    assert_eq!(m["content"], val(r#"[]"#));
    assert_eq!(m["stop_reason"], "end_turn");
}

#[test]
fn green_chat_to_message_call_id_normalized() {
    let m = cm(&val(r#"{
        "choices": [{
            "message": {
                "tool_calls": [
                    { "function": { "name": "a", "arguments": "{}" } },
                    { "id": "", "function": { "name": "b", "arguments": "{}" } }
                ]
            },
            "finish_reason": "tool_calls"
        }]
    }"#));
    assert_eq!(m["content"][0]["id"], "toolu_bridge_call_0");
    assert_eq!(m["content"][1]["id"], "toolu_bridge_call_1");
}


fn conv(body: &Value) -> Chat {
    to_chat_payload(body, "").expect("transform succeeds")
}

#[test]
fn red_model_is_required() {
    let r = to_chat_payload(&val(r#"{ "messages": [] }"#), "");
    assert!(
        matches!(
            r,
            Err(BridgeError {
                code: "missing_model",
                ..
            })
        ),
        "{r:?}"
    );
}

#[test]
fn green_minimal_chat_payload() {
    let p = conv(&val(r#"{
        "model": "deepseek-ai/deepseek-r1",
        "max_tokens": 1024,
        "messages": [{ "role": "user", "content": "hello" }]
    }"#));
    assert_eq!(p.json["model"], "deepseek-ai/deepseek-r1");
    assert_eq!(p.json["max_tokens"], 1024);
    let msgs = p.json["messages"].as_array().expect("messages");
    assert_eq!(msgs.len(), 1);
    assert_eq!(msgs[0]["role"], "user");
    assert_eq!(msgs[0]["content"], "hello");
    assert!(p.tools.is_empty());
    assert!(p.json.get("tools").is_none());
    assert!(!p.forced_tool);
}

#[test]
fn green_system_string_and_blocks() {
    let p = conv(&val(r#"{
        "model": "m",
        "system": "be brief",
        "messages": [{ "role": "user", "content": [{ "type": "text", "text": "hi" }] }]
    }"#));
    let msgs = p.json["messages"].as_array().expect("messages");
    assert_eq!(msgs[0]["role"], "system");
    assert_eq!(msgs[0]["content"], "be brief");
    assert_eq!(msgs[1]["content"], "hi");

    let p = conv(&val(r#"{
        "model": "m",
        "system": [{ "type": "text", "text": "a" }, { "type": "text", "text": "b" }],
        "messages": []
    }"#));
    let msgs = p.json["messages"].as_array().expect("messages");
    assert_eq!(msgs[0]["content"], "a\nb");
}

#[test]
fn green_custom_tool_shapes() {
    let p = conv(&val(r#"{
        "model": "m",
        "tools": [{
            "name": "get_weather",
            "description": "weather",
            "input_schema": { "type": "object", "properties": { "city": { "type": "string" } } }
        }],
        "messages": []
    }"#));
    assert_eq!(p.tools.len(), 1);
    assert_eq!(p.tools[0]["type"], "function");
    assert_eq!(p.tools[0]["function"]["name"], "get_weather");
    assert_eq!(p.tools[0]["function"]["parameters"]["type"], "object");
    assert_eq!(
        p.json["tools"].as_array().expect("tools on payload").len(),
        1
    );
    assert!(p.tool_meta.iter().all(|m| m.family == ToolFamily::Custom));
}

#[test]
fn green_client_tool_prefix_families() {
    for (type_str, family) in [
        ("bash_20250124", ToolFamily::Bash),
        ("text_editor_20250728", ToolFamily::TextEditor),
        ("memory_20250818", ToolFamily::Memory),
        ("computer_use_20250124", ToolFamily::Computer),
        ("web_search_20250305", ToolFamily::WebSearch),
    ] {
        let p = conv(&fill(r#"{
            "model": "m",
            "tools": [{ "type": "@0", "name": "tool1" }],
            "messages": []
        }"#, &[Value::from(type_str)]));
        let meta = p.tool_meta.first().expect("meta");
        assert_eq!(meta.family, family, "{type_str}");
        assert_eq!(meta.name, "tool1", "{type_str}: explicit name stored");
        // The explicit name rides the wire; the default name is only for
        // offers that name nothing.
        assert_eq!(p.tools[0]["function"]["name"], "tool1");
    }
}

#[test]
fn green_family_default_names_without_offered_names() {
    for (type_str, default_name) in [
        ("bash_20250124", "bash"),
        ("text_editor_20250728", "str_replace_based_edit_tool"),
        ("memory_20250818", "memory"),
        ("computer_use_20250124", "computer"),
    ] {
        let p = conv(&fill(r#"{
            "model": "m",
            "tools": [{ "type": "@0" }],
            "messages": []
        }"#, &[Value::from(type_str)]));
        assert_eq!(p.tools[0]["function"]["name"], default_name, "{type_str}");
        assert_eq!(p.tool_meta[0].name, default_name, "{type_str}");
    }
}

#[test]
fn red_mcp_servers_rejected() {
    let r = to_chat_payload(
        &val(r#"{
            "model": "m",
            "mcp_servers": { "github": {} },
            "messages": []
        }"#),
        "",
    );
    assert!(
        matches!(
            r,
            Err(BridgeError {
                code: "server_tools_unsupported",
                ..
            })
        ),
        "{r:?}"
    );
}

#[test]
fn red_mcp_toolset_rejected() {
    let r = to_chat_payload(
        &val(r#"{
            "model": "m",
            "tools": [{ "type": "mcp_toolset", "mcp_server_name": "github" }],
            "messages": []
        }"#),
        "",
    );
    assert!(
        matches!(
            r,
            Err(BridgeError {
                code: "server_tools_unsupported",
                ..
            })
        ),
        "{r:?}"
    );
}

#[test]
fn red_programmatic_callers_rejected() {
    let r = to_chat_payload(
        &val(r#"{
            "model": "m",
            "tools": [{
                "type": "bash_20250124",
                "name": "bash",
                "allowed_callers": ["programmatic"]
            }],
            "messages": []
        }"#),
        "",
    );
    assert!(
        matches!(
            r,
            Err(BridgeError {
                code: "server_tools_unsupported",
                ..
            })
        ),
        "{r:?}"
    );
}

#[test]
fn green_callers_including_direct_accepted() {
    let p = conv(&val(r#"{
        "model": "m",
        "tools": [{
            "type": "bash_20250124",
            "name": "bash",
            "allowed_callers": ["direct", "programmatic"]
        }],
        "messages": []
    }"#));
    assert_eq!(p.tool_meta[0].family, ToolFamily::Bash);
}

#[test]
fn green_assistant_tool_use_becomes_tool_calls() {
    let p = conv(&val(r#"{
        "model": "m",
        "messages": [
          { "role": "user", "content": "list files" },
          { "role": "assistant", "content": [
              { "type": "text", "text": "checking" },
              { "type": "tool_use", "id": "toolu_1", "name": "bash", "input": { "command": "ls" } }
          ]},
          { "role": "user", "content": [
              { "type": "tool_result", "tool_use_id": "toolu_1", "content": "a\nb" }
          ]}
        ]
    }"#));
    let msgs = p.json["messages"].as_array().expect("messages");
    assert_eq!(msgs.len(), 3);
    assert_eq!(msgs[1]["role"], "assistant");
    assert_eq!(msgs[1]["content"], "checking");
    assert_eq!(msgs[1]["tool_calls"].as_array().expect("calls").len(), 1);
    let call = &msgs[1]["tool_calls"][0];
    assert_eq!(call["id"], "toolu_1");
    assert_eq!(call["function"]["name"], "bash");
    assert_eq!(call["function"]["arguments"], "{\"command\":\"ls\"}");
    assert_eq!(msgs[2]["role"], "tool");
    assert_eq!(msgs[2]["tool_call_id"], "toolu_1");
    assert_eq!(msgs[2]["content"], "a\nb");
}

#[test]
fn green_tool_use_without_id_gets_bridge_id() {
    let p = conv(&val(r#"{
        "model": "m",
        "messages": [{
            "role": "assistant",
            "content": [{ "type": "tool_use", "name": "f", "input": {} }]
        }]
    }"#));
    let msgs = p.json["messages"].as_array().expect("messages");
    let id = msgs[0]["tool_calls"][0]["id"].as_str().expect("id");
    assert_eq!(id, "toolu_bridge_0");
}

#[test]
fn green_tool_result_error_flag_prefixes() {
    let p = conv(&val(r#"{
        "model": "m",
        "messages": [
          { "role": "assistant", "content": [
              { "type": "tool_use", "id": "toolu_9", "name": "f", "input": {} }
          ]},
          { "role": "user", "content": [
              { "type": "tool_result", "tool_use_id": "toolu_9", "content": "boom", "is_error": true }
          ]}
        ]
    }"#));
    let msgs = p.json["messages"].as_array().expect("messages");
    assert!(
        msgs[1]["content"]
            .as_str()
            .expect("tool content")
            .starts_with("tool returned an error"),
        "{:?}",
        msgs[1]["content"]
    );
}

#[test]
fn green_tool_result_without_id_pairs_synthesized_id() {
    let p = conv(&val(r#"{
        "model": "m",
        "messages": [
          {
            "role": "assistant",
            "content": [
                { "type": "tool_use", "name": "f", "input": {} },
                { "type": "text", "text": "calling f" }
            ]
          },
          {
            "role": "user",
            "content": [
                { "type": "tool_result", "content": "note" },
                { "type": "text", "text": "now what?" }
            ]
          }
        ]
    }"#));
    let msgs = p.json["messages"].as_array().expect("messages");
    // assistant message first (tool_use with no id -> synthesized),
    // then the tool message must pair to the same id, then the text.
    let call_id = msgs[0]["tool_calls"][0]["id"].as_str().expect("call id");
    assert_eq!(
        call_id, "toolu_bridge_0",
        "synthesized pair is deterministic per request"
    );
    assert!(call_id.starts_with("toolu_bridge_"), "{call_id}");
    let tool_msg = msgs.iter().find(|m| m["role"] == "tool").expect("tool msg");
    assert_eq!(tool_msg["tool_call_id"], call_id, "ids must pair");
    assert_eq!(tool_msg["content"], "note");
    let user_msg = msgs.iter().find(|m| m["role"] == "user").expect("user msg");
    assert_eq!(user_msg["content"], "now what?");
}

#[test]
fn green_tool_result_without_id_standalone_gets_placeholder() {
    let p = conv(&val(r#"{
        "model": "m",
        "messages": [{
            "role": "user",
            "content": [{ "type": "tool_result" }]
        }]
    }"#));
    let msgs = p.json["messages"].as_array().expect("messages");
    assert_eq!(msgs[0]["role"], "tool");
    assert_eq!(msgs[0]["content"], "(no output)");
}

#[test]
fn red_unknown_server_tool_type_rejected() {
    for type_str in [
        "advisor_20250729",
        "code_execution_20250825",
        "python_20250414",
    ] {
        let r = to_chat_payload(
            &fill(r#"{
                "model": "m",
                "tools": [{ "type": "@0", "name": "x" }],
                "messages": []
            }"#, &[Value::from(type_str)]),
            "",
        );
        assert!(
            matches!(
                r,
                Err(BridgeError {
                    code: "server_tools_unsupported",
                    ..
                })
            ),
            "{type_str}: {r:?}"
        );
    }
}

#[test]
fn red_tool_choice_named_without_name_rejected() {
    let r = to_chat_payload(
        &val(r#"{
            "model": "m",
            "tools": [{ "name": "f" }],
            "tool_choice": { "type": "tool" },
            "messages": []
        }"#),
        "",
    );
    assert!(
        matches!(
            r,
            Err(BridgeError {
                code: "invalid_tool_choice",
                ..
            })
        ),
        "{r:?}"
    );
}

#[test]
fn green_thinking_blocks_tagged_in_assistant_history() {
    let p = conv(&val(r#"{
        "model": "m",
        "messages": [{
            "role": "assistant",
            "content": [
                { "type": "thinking", "thinking": "hmm let me see" },
                { "type": "text", "text": "answer" }
            ]
        }]
    }"#));
    let msgs = p.json["messages"].as_array().expect("messages");
    assert_eq!(
        msgs[0]["content"],
        "<thinking>hmm let me see</thinking>\nanswer"
    );
}

#[test]
fn green_tool_choice_mapping() {
    let p = conv(
        &val(r#"{ "model": "m", "tools": [{ "name": "f" }], "tool_choice": "any", "messages": [] }"#),
    );
    assert_eq!(p.tool_choice.as_ref().expect("choice"), &val(r#""required""#));
    assert!(p.forced_tool);
    assert_eq!(p.json["tool_choice"], val(r#""required""#));

    let p = conv(&val(r#"{
        "model": "m", "tools": [{ "name": "f" }],
        "tool_choice": { "type": "tool", "name": "f" },
        "messages": []
    }"#));
    assert_eq!(p.json["tool_choice"]["function"]["name"], "f");
    assert!(p.forced_tool);

    let p = conv(
        &val(r#"{ "model": "m", "tools": [{ "name": "f" }], "tool_choice": "none", "messages": [] }"#),
    );
    assert_eq!(
        p.json["tool_choice"],
        val(r#""none""#),
        "none must ban tool calls, not vanish"
    );
    assert!(!p.forced_tool);
}

#[test]
fn green_param_passthrough_and_thinking_presence() {
    let p = conv(&val(r#"{
        "model": "m",
        "max_tokens": 4096,
        "top_p": 0.95,
        "seed": 7,
        "stop_sequences": ["\n\n"],
        "thinking": { "type": "enabled", "budget_tokens": 2048 },
        "messages": []
    }"#));
    assert_eq!(p.json["max_tokens"], 4096);
    assert_eq!(p.json["top_p"], 0.95);
    assert_eq!(p.json["seed"], 7);
    assert_eq!(p.json["stop"], val(r#"["\n\n"]"#));
    assert!(p.thinking.enabled);
    assert_eq!(p.thinking.budget_tokens, Some(2048));
    assert!(!p.thinking.interleaved);
    assert!(p.json.get("thinking").is_none());
}

#[test]
fn green_thinking_reasoning_content_emits_leading_block() {
    let m = cm(&val(r#"{
        "id": "chatcmpl-r1",
        "model": "nim-m",
        "choices": [{
            "message": { "reasoning_content": "  let me think  ", "content": "hi" },
            "finish_reason": "stop"
        }],
        "usage": { "prompt_tokens": 1, "completion_tokens": 2 }
    }"#));
    let blocks = m["content"].as_array().expect("content");
    assert_eq!(blocks.len(), 2, "thinking leads, then text: {blocks:?}");
    assert_eq!(blocks[0]["type"], "thinking");
    assert_eq!(blocks[0]["thinking"], "let me think", "trimmed, not raw");
    let sig = blocks[0]["signature"].as_str().expect("signature");
    assert!(sig.starts_with("nimthinking_"), "{sig:?}");
    assert!(!sig.contains('='), "urlsafe base64, padding stripped");
    assert_eq!(blocks[1], val(r#"{ "type": "text", "text": "hi" }"#));
}

#[test]
fn green_thinking_signature_is_deterministic_and_model_bound() {
    let sig = synthetic_thinking_signature("model-a", "text");
    assert_eq!(sig, synthetic_thinking_signature("model-a", "text"));
    assert_ne!(sig, synthetic_thinking_signature("model-b", "text"));
    assert_ne!(sig, synthetic_thinking_signature("model-a", "other"));
}

#[test]
fn green_thinking_blank_reasoning_is_not_emitted() {
    let m = cm(&val(r#"{
        "id": "chatcmpl-r2",
        "model": "nim-m",
        "choices": [{
            "message": { "reasoning_content": "   ", "content": "hi" },
            "finish_reason": "stop"
        }],
        "usage": {}
    }"#));
    let blocks = m["content"].as_array().expect("content");
    assert_eq!(blocks.len(), 1, "blank reasoning must not create a block");
    assert_eq!(blocks[0]["type"], "text");
}

#[test]
fn green_interleaved_beta_licenses_budget_at_max_tokens() {
    let body = val(r#"{
        "model": "m",
        "max_tokens": 2048,
        "thinking": { "type": "enabled", "budget_tokens": 2048 },
        "tools": [{ "name": "f" }],
        "messages": []
    }"#);
    let p = to_chat_payload(&body, INTERLEAVED_THINKING_BETA)
        .expect("budget == max is legal under the interleaved beta");
    assert!(p.thinking.enabled);
    assert!(p.thinking.interleaved, "beta + tools offered");

    // Same request, no beta: the `>=` boundary must fall back to 400.
    let r = to_chat_payload(&body, "");
    assert!(
        matches!(
            r,
            Err(BridgeError {
                code: "invalid_thinking",
                ..
            })
        ),
        "{r:?}"
    );
}

#[test]
fn green_beta_without_tools_keeps_strict_budget_rule() {
    let body = val(r#"{
        "model": "m",
        "max_tokens": 1024,
        "thinking": { "type": "enabled", "budget_tokens": 1024 },
        "messages": []
    }"#);
    let r = to_chat_payload(&body, INTERLEAVED_THINKING_BETA);
    assert!(
        matches!(
            r,
            Err(BridgeError {
                code: "invalid_thinking",
                ..
            })
        ),
        "the beta only relaxes the rule when tools are offered; {r:?}"
    );
}

#[test]
fn green_thinking_disabled_is_a_no_op() {
    let p = conv(&val(r#"{
        "model": "m",
        "thinking": { "type": "disabled", "budget_tokens": 0 },
        "messages": []
    }"#));
    assert_eq!(p.thinking, ThinkingMeta::default());
    assert!(!p.thinking.enabled);
}

#[test]
fn red_thinking_budget_below_floor() {
    let r = to_chat_payload(
        &val(r#"{
            "model": "m",
            "thinking": { "type": "enabled", "budget_tokens": 512 },
            "messages": []
        }"#),
        "",
    );
    assert!(
        matches!(
            r,
            Err(BridgeError {
                code: "invalid_thinking",
                ..
            })
        ),
        "{r:?}"
    );
}

#[test]
fn red_thinking_enabled_requires_budget() {
    for v in [
        val(r#"{ "type": "enabled" }"#),
        val(r#"true"#),
        val(r#"{ "enabled": true }"#),
    ] {
        let r = to_chat_payload(&fill(r#"{ "model": "m", "thinking": "@0", "messages": [] }"#, &[v.clone()]), "");
        assert!(
            matches!(
                r,
                Err(BridgeError {
                    code: "invalid_thinking",
                    ..
                })
            ),
            "missing budget: {v:?} -> {r:?}"
        );
    }
}

#[test]
fn red_thinking_malformed_shape_or_type() {
    for v in [val(r#""always""#), val(r#"{ "type": "sometimes" }"#), val(r#"null"#)] {
        let r = to_chat_payload(&fill(r#"{ "model": "m", "thinking": "@0", "messages": [] }"#, &[v.clone()]), "");
        assert!(
            matches!(
                r,
                Err(BridgeError {
                    code: "invalid_thinking",
                    ..
                })
            ),
            "malformed thinking: {v:?} -> {r:?}"
        );
    }
    // A null type reads as an object without an `enabled` flag: disabled.
    let p = conv(&val(r#"{ "model": "m", "thinking": { "type": null }, "messages": [] }"#));
    assert!(!p.thinking.enabled);
}

#[test]
fn red_thinking_rejects_temperature_and_top_p() {
    let r = to_chat_payload(
        &val(r#"{
            "model": "m",
            "thinking": { "type": "enabled", "budget_tokens": 2048 },
            "temperature": 0.2,
            "messages": []
        }"#),
        "",
    );
    assert!(
        matches!(
            r,
            Err(BridgeError {
                code: "invalid_thinking",
                ..
            })
        ),
        "any temperature is rejected in thinking mode; {r:?}"
    );

    let r = to_chat_payload(
        &val(r#"{
            "model": "m",
            "thinking": { "type": "enabled", "budget_tokens": 2048 },
            "top_p": 0.5,
            "messages": []
        }"#),
        "",
    );
    assert!(
        matches!(
            r,
            Err(BridgeError {
                code: "invalid_thinking",
                ..
            })
        ),
        "top_p below 0.95 is rejected; {r:?}"
    );

    // The 0.95 boundary is inclusive.
    let p = conv(&val(r#"{
        "model": "m",
        "thinking": { "type": "enabled", "budget_tokens": 2048 },
        "top_p": 0.95,
        "messages": []
    }"#));
    assert!(p.thinking.enabled);
}

#[test]
fn red_thinking_rejects_forced_tool_choice() {
    let r = to_chat_payload(
        &val(r#"{
            "model": "m",
            "thinking": { "type": "enabled", "budget_tokens": 2048 },
            "tools": [{ "name": "f" }],
            "tool_choice": "any",
            "messages": []
        }"#),
        "",
    );
    assert!(
        matches!(
            r,
            Err(BridgeError {
                code: "invalid_thinking",
                ..
            })
        ),
        "forced tool choice is unsupported with thinking; {r:?}"
    );
}

#[test]
fn red_thinking_rejects_assistant_prefill_but_not_redacted() {
    let r = to_chat_payload(
        &val(r#"{
            "model": "m",
            "thinking": { "type": "enabled", "budget_tokens": 2048 },
            "messages": [
                { "role": "user", "content": "q" },
                { "role": "assistant", "content": [
                    { "type": "text", "text": "half-answered" }
                ] }
            ]
        }"#),
        "",
    );
    assert!(
        matches!(
            r,
            Err(BridgeError {
                code: "invalid_thinking",
                ..
            })
        ),
        "assistant prefill as the last message is rejected; {r:?}"
    );

    // A lone redacted_thinking block is the one permitted prefill.
    let p = conv(&val(r#"{
        "model": "m",
        "thinking": { "type": "enabled", "budget_tokens": 2048 },
        "messages": [
            { "role": "user", "content": "q" },
            { "role": "assistant", "content": [
                { "type": "redacted_thinking", "data": "opaque" }
            ] }
        ]
    }"#));
    assert!(p.thinking.enabled);
}

#[test]
fn green_stream_flag_passes_through() {
    let p = conv(&val(r#"{ "model": "m", "stream": true, "messages": [] }"#));
    assert_eq!(p.json["stream"], true);

    let p = conv(&val(r#"{ "model": "m", "stream": false, "messages": [] }"#));
    assert_eq!(p.json["stream"], false);

    let p = conv(&val(r#"{ "model": "m", "messages": [] }"#));
    assert!(p.json.get("stream").is_none());
}

#[test]
fn green_parallel_tool_use_maps_to_openai() {
    let p = conv(&val(r#"{
        "model": "m",
        "tools": [{ "name": "f" }],
        "parallel_tool_use": true,
        "messages": []
    }"#));
    assert_eq!(p.json["parallel_tool_calls"], true);

    let p = conv(&val(r#"{
        "model": "m",
        "tools": [{ "name": "f" }],
        "tool_choice": { "type": "auto", "disable_parallel_tool_use": true },
        "messages": []
    }"#));
    assert_eq!(p.json["parallel_tool_calls"], false);
}

#[test]
fn green_parallel_tool_use_ignored_without_tools() {
    let p = conv(&val(r#"{ "model": "m", "parallel_tool_use": true, "messages": [] }"#));
    assert!(p.json.get("parallel_tool_calls").is_none());
}

#[test]
fn green_image_document_omitted() {
    let p = conv(&val(r#"{
        "model": "m",
        "messages": [{
            "role": "user",
            "content": [
                { "type": "image", "source": {} },
                { "type": "text", "text": "what is this?" }
            ]
        }]
    }"#));
    let msgs = p.json["messages"].as_array().expect("messages");
    // user-side multi-part content folds into one joined string, the
    // OpenAI-compatible shape (chat upstreams don't take part arrays
    // for user messages through NIM).
    assert_eq!(msgs[0]["content"], "[image content omitted]\nwhat is this?");
}

#[test]
fn green_developer_role_maps_to_system() {
    let p = conv(&val(r#"{
        "model": "m",
        "messages": [{ "role": "developer", "content": "house rules" }]
    }"#));
    let msgs = p.json["messages"].as_array().expect("messages");
    assert_eq!(msgs[0]["role"], "system");
    assert_eq!(msgs[0]["content"], "house rules");
}


/// Every emitted OpenAI tool must hold the function shape: `type`
/// function, a string name, and an object parameter schema.
fn assert_openai_function_shape(t: &Value, label: &str) {
    assert_eq!(t["type"], "function", "{label}");
    assert!(
        t["function"]["name"].is_string(),
        "{label}: name must be a string"
    );
    let params = &t["function"]["parameters"];
    assert_eq!(params["type"], "object", "{label}");
    assert!(
        params.get("properties").is_some_and(|p| p.is_object()),
        "{label}: object parameters carry a properties map"
    );
}

#[test]
fn green_client_families_carry_generated_schemas() {
    let cases: &[(&str, &str, &str)] = &[
        ("bash_20250124", "bash", "command"),
        (
            "text_editor_20250728",
            "str_replace_based_edit_tool",
            "command",
        ),
        ("memory_20250818", "memory", "command"),
        ("computer_use_20250124", "computer", "action"),
    ];
    for &(type_str, default_name, prop) in cases {
        let p = conv(&fill(r#"{
            "model": "m",
            "tools": [{ "type": "@0" }],
            "messages": []
        }"#, &[Value::from(type_str)]));
        let tool = &p.tools[0];
        assert_openai_function_shape(tool, type_str);
        assert_eq!(
            tool["function"]["name"], default_name,
            "{type_str}: the family default name wins when the offer names nothing"
        );
        let desc = tool["function"]["description"]
            .as_str()
            .expect("description");
        assert!(
            !desc.is_empty(),
            "{type_str}: catalog description present: {desc}"
        );
        let props = tool["function"]["parameters"]["properties"]
            .as_object()
            .expect("properties");
        assert!(props.contains_key(prop), "{type_str}");
        // The generated schema is picked over the empty-object fallback.
        assert!(
            props.len() > 1,
            "{type_str}: generated family schema, not the empty fallback"
        );
    }
}

#[test]
fn green_text_editor_undo_edit_only_for_legacy_types() {
    for (type_str, legacy) in [
        ("text_editor_20241022", true),
        ("text_editor_20250124", true),
        ("text_editor_20250728", false),
    ] {
        let p = conv(&fill(r#"{
            "model": "m",
            "tools": [{ "type": "@0" }],
            "messages": []
        }"#, &[Value::from(type_str)]));
        let commands = p.tools[0]["function"]["parameters"]["properties"]["command"]["enum"]
            .as_array()
            .expect("command enum");
        assert_eq!(
            commands.iter().any(|c| c == "undo_edit"),
            legacy,
            "{type_str}"
        );
    }
}

#[test]
fn green_computer_zoom_only_for_20251124() {
    for (type_str, zoom) in [
        ("computer_use_20250124", false),
        ("computer_use_20251124", true),
    ] {
        let p = conv(&fill(r#"{
            "model": "m",
            "tools": [{ "type": "@0" }],
            "messages": []
        }"#, &[Value::from(type_str)]));
        let actions = p.tools[0]["function"]["parameters"]["properties"]["action"]["enum"]
            .as_array()
            .expect("action enum");
        assert_eq!(actions.iter().any(|a| a == "zoom"), zoom, "{type_str}");
    }
}

#[test]
fn green_explicit_input_schema_and_description_win() {
    let p = conv(&val(r#"{
        "model": "m",
        "tools": [{
            "type": "bash_20250124",
            "name": "my_bash",
            "description": "house flavor",
            "input_schema": { "type": "object", "properties": { "cmd": { "type": "string" } } }
        }],
        "messages": []
    }"#));
    let tool = &p.tools[0];
    assert_eq!(tool["function"]["name"], "my_bash", "explicit name wins");
    assert_eq!(
        tool["function"]["description"], "house flavor",
        "explicit description wins"
    );
    let props = tool["function"]["parameters"]["properties"]
        .as_object()
        .expect("props");
    assert_eq!(
        props.len(),
        1,
        "explicit input_schema wins over the generated one"
    );
    assert!(props.contains_key("cmd"));
}

#[test]
fn green_caller_direct_echoed_for_client_tools() {
    let completion = val(r#"{
        "id": "chatcmpl-c",
        "choices": [{
            "message": {
                "tool_calls": [{
                    "id": "call_1",
                    "function": { "name": "bash", "arguments": "{\"command\":\"ls\"}" }
                }]
            },
            "finish_reason": "tool_calls"
        }]
    }"#);
    let meta = conv(&val(r#"{
        "model": "m",
        "tools": [{ "type": "bash_20250124", "name": "bash" }],
        "messages": []
    }"#));
    let m = chat_to_message(&completion, "client-model", &meta.tool_meta);
    assert_eq!(
        m["content"],
        val(r#"[{
            "type": "tool_use",
            "id": "call_1",
            "name": "bash",
            "input": { "command": "ls" },
            "caller": { "type": "direct" }
        }]"#),
        "a client-offered tool echoes the direct caller"
    );
    assert_eq!(m["stop_reason"], "tool_use");
}

#[test]
fn green_caller_absent_without_client_tools() {
    let completion = val(r#"{
        "id": "chatcmpl-c2",
        "choices": [{
            "message": {
                "tool_calls": [{
                    "id": "call_2",
                    "function": { "name": "bash", "arguments": "{}" }
                }]
            },
            "finish_reason": "tool_calls"
        }]
    }"#);
    // No tool offers at all: nothing names the call as caller-executed.
    let m = chat_to_message(&completion, "client-model", &[]);
    assert!(
        m["content"][0].get("caller").is_none(),
        "no client offer, no caller echo: {m}"
    );
    // A web_search offer is reserved for in-gateway execution: no echo.
    let web = conv(&val(r#"{
        "model": "m",
        "tools": [{ "type": "web_search_20250305", "name": "bash" }],
        "messages": []
    }"#));
    let m = chat_to_message(&completion, "client-model", &web.tool_meta);
    assert!(
        m["content"][0].get("caller").is_none(),
        "web family offers never echo caller: {m}"
    );
}

#[test]
fn green_tool_use_tool_calls_round_trip_is_identity() {
    // Anthropic tool_use -> OpenAI tool_calls -> Anthropic tool_use.
    let anthropic = val(r#"{
        "type": "tool_use",
        "id": "toolu_abc",
        "name": "bash",
        "input": { "command": "ls -la", "restart": false }
    }"#);
    let meta = vec![ToolMeta {
        name: "bash".into(),
        family: ToolFamily::Bash,
    }];
    let mut ids = IdState::new();
    let call = tool_use_to_call(&anthropic, &mut ids);
    assert_eq!(call["id"], "toolu_abc");
    assert_eq!(call["function"]["name"], "bash");
    assert_eq!(
        call["function"]["arguments"], r#"{"command":"ls -la","restart":false}"#,
        "arguments is the JSON-string input object"
    );
    let completion = fill(r#"{
        "id": "chatcmpl-rt",
        "choices": [{
            "message": { "tool_calls": ["@0"] },
            "finish_reason": "tool_calls"
        }]
    }"#, &[call.clone()]);
    let m = chat_to_message(&completion, "client-model", &meta);
    assert_eq!(
        m["content"],
        val(r#"[{
            "type": "tool_use",
            "id": "toolu_abc",
            "name": "bash",
            "input": { "command": "ls -la", "restart": false },
            "caller": { "type": "direct" }
        }]"#),
        "the round-trip reproduces the tool_use block (plus the caller echo)"
    );
}

#[test]
fn green_multi_turn_tool_round_trip_preserves_ordering() {
    // Anthropic -> chat: 3 parallel calls, results out of order (with a
    // block-array + is_error result), suffixed tool_result variants.
    let anthropic = val(r#"{
        "model": "m",
        "max_tokens": 1024,
        "tools": [
            {"type": "bash_20250124", "name": "bash"},
            {"name": "read_file"},
            {"name": "write_file"}
        ],
        "messages": [
          { "role": "user", "content": "list and read" },
          { "role": "assistant", "content": [
              { "type": "text", "text": "running three" },
              { "type": "tool_use", "id": "toolu_a", "name": "bash", "input": {"command": "ls"} },
              { "type": "tool_use", "id": "toolu_b", "name": "read_file", "input": {"path": "a"} },
              { "type": "tool_use", "id": "toolu_c", "name": "write_file", "input": {"path": "b", "text": "x"} }
          ]},
          { "role": "user", "content": [
              
              { "type": "write_file_tool_result", "tool_use_id": "toolu_c",
                "content": [{"type": "text", "text": "write failed"}, {"type": "text", "text": "disk full"}],
                "is_error": true },
              { "type": "tool_result", "tool_use_id": "toolu_a", "content": "a\nb" },
              { "type": "tool_result", "tool_use_id": "toolu_b", "content": "file contents" }
          ]}
        ]
    }"#);
    let payload = conv(&anthropic);
    let msgs = payload.json["messages"].as_array().expect("chat messages");
    assert_eq!(msgs.len(), 5, "{msgs:?}");
    // Layout: user, assistant+tool_calls, tool, tool, tool — the results
    // out of request order stay in sequence.
    let roles: Vec<&str> = msgs.iter().map(|m| m["role"].as_str().unwrap()).collect();
    assert_eq!(
        roles,
        ["user", "assistant", "tool", "tool", "tool"],
        "{msgs:?}"
    );
    let calls = msgs[1]["tool_calls"].as_array().expect("calls");
    assert_eq!(
        calls
            .iter()
            .map(|c| c["function"]["name"].as_str().unwrap())
            .collect::<Vec<_>>(),
        ["bash", "read_file", "write_file"],
        "parallel calls keep their request order"
    );
    let tool_msgs = msgs[2..].to_vec();
    let ids: Vec<&str> = tool_msgs
        .iter()
        .map(|m| m["tool_call_id"].as_str().unwrap())
        .collect();
    assert_eq!(
        ids,
        ["toolu_c", "toolu_a", "toolu_b"],
        "results keep their out-of-order sequence: {msgs:?}"
    );
    assert_eq!(
        tool_msgs[0]["content"], "tool returned an error: write failed\ndisk full",
        "block-array content folds; is_error prefixes: {msgs:?}"
    );
    assert_eq!(tool_msgs[1]["content"], "a\nb");
    assert_eq!(tool_msgs[2]["content"], "file contents");

    // chat -> Anthropic: the follow-up completion's three calls round-trip.
    let completion = val(r#"{
        "id": "chatcmpl-multi",
        "choices": [{
            "message": {
                "role": "assistant",
                "content": "again",
                "tool_calls": [
                    {"id": "toolu_a", "type": "function", "function": {"name": "bash", "arguments": "{\"command\":\"ls\"}"}},
                    {"id": "toolu_b", "type": "function", "function": {"name": "read_file", "arguments": "{\"path\":\"a\"}"}},
                    {"id": "toolu_c", "type": "function", "function": {"name": "write_file", "arguments": "{\"path\":\"b\"}"}}
                ]
            },
            "finish_reason": "tool_calls"
        }],
        "usage": {"prompt_tokens": 9, "completion_tokens": 3}
    }"#);
    let m = chat_to_message(&completion, "client-model", &payload.tool_meta);
    assert_eq!(m["role"], "assistant");
    assert_eq!(m["stop_reason"], "tool_use");
    let blocks = m["content"].as_array().expect("content");
    assert_eq!(blocks.len(), 4, "text plus the three tool_use blocks: {m}");
    assert_eq!(blocks[0], val(r#"{"type": "text", "text": "again"}"#));
    for (block, id, name) in [
        (1, "toolu_a", "bash"),
        (2, "toolu_b", "read_file"),
        (3, "toolu_c", "write_file"),
    ] {
        assert_eq!(blocks[block]["type"], "tool_use");
        assert_eq!(blocks[block]["id"], id, "ids preserved in order");
        assert_eq!(blocks[block]["name"], name);
        assert_eq!(
            blocks[block]["caller"],
            val(r#"{"type": "direct"}"#),
            "all three were client offers"
        );
    }
    // And feed the emitted assistant message straight back through:
    // tool_result pairing by id must be identity (stateless round-trip).
    let back = conv(&fill(r#"{
        "model": "m",
        "messages": [
          { "role": "user", "content": "list and read" },
          "@0",
          { "role": "user", "content": [
              { "type": "tool_result", "tool_use_id": "toolu_c", "content": "ok now" },
              { "type": "tool_result", "tool_use_id": "toolu_a", "content": "c1" },
              { "type": "tool_result", "tool_use_id": "toolu_b", "content": "c2" }
          ]}
        ]
    }"#, &[m.clone()]));
    let back_msgs = back.json["messages"].as_array().expect("messages");
    let assistant = back_msgs
        .iter()
        .find(|x| x["role"] == "assistant")
        .expect("assistant");
    assert_eq!(
        assistant["tool_calls"].as_array().map(|c| c.len()),
        Some(3),
        "the emitted tool_use blocks convert back to three calls"
    );
    let tool_ids: Vec<&str> = back_msgs
        .iter()
        .filter(|x| x["role"] == "tool")
        .map(|x| x["tool_call_id"].as_str().unwrap())
        .collect();
    assert_eq!(tool_ids, ["toolu_c", "toolu_a", "toolu_b"]);
}

#[test]
fn red_computer_programmatic_callers_rejected() {
    let r = to_chat_payload(
        &val(r#"{
            "model": "m",
            "tools": [{
                "type": "computer_use_20250124",
                "name": "computer",
                "allowed_callers": ["programmatic"]
            }],
            "messages": []
        }"#),
        "",
    );
    assert!(
        matches!(
            r,
            Err(BridgeError {
                code: "server_tools_unsupported",
                ..
            })
        ),
        "{r:?}"
    );
}

fn payload(text: &str) -> Result<Chat, BridgeError> {
    to_chat_payload(&val(text), "")
}

fn refused(text: &str) -> BridgeError {
    payload(text).expect_err("refused")
}

#[test]
fn explicit_ids_are_kept_and_synthesized_ones_pair_in_order() {
    let p = payload(
        r#"{"model":"m","messages":[
            {"role":"assistant","content":[
                {"type":"tool_use","name":"a","input":{}},
                {"type":"tool_use","id":"own","name":"b","input":{}},
                {"type":"tool_use","name":"c","input":{}}]},
            {"role":"user","content":[
                {"type":"tool_result","content":"1"},
                {"type":"tool_result","tool_use_id":"own","content":"2"},
                {"type":"tool_result","content":"3"}]}]}"#,
    )
    .unwrap();
    let msgs = p.json["messages"].as_array().unwrap();
    let calls: Vec<&str> = msgs[0]["tool_calls"]
        .as_array()
        .unwrap()
        .iter()
        .map(|c| c["id"].as_str().unwrap())
        .collect();
    assert_eq!(calls, ["toolu_bridge_0", "own", "toolu_bridge_1"]);
    let results: Vec<&str> = msgs[1..]
        .iter()
        .map(|m| m["tool_call_id"].as_str().unwrap())
        .collect();
    assert_eq!(results, calls);
}

#[test]
fn every_offer_has_its_metadata() {
    let p = payload(
        r#"{"model":"m","messages":[],"tools":[
            {"name":"x"},{"type":"bash_20250124"},{"type":"web_search_20250305","max_uses":3}]}"#,
    )
    .unwrap();
    assert_eq!(p.tools.len(), p.tool_meta.len());
    for (tool, meta) in p.tools.iter().zip(&p.tool_meta) {
        assert_eq!(tool["function"]["name"], meta.name.as_str());
    }
}

#[test]
fn prefilled_answers_are_refused_in_any_shape() {
    for content in [r#""half""#, r#"{"type":"text","text":"half"}"#] {
        let e = refused(&format!(
            r#"{{"model":"m","thinking":{{"type":"enabled","budget_tokens":2048}},"messages":[
                {{"role":"user","content":"q"}},{{"role":"assistant","content":{content}}}]}}"#
        ));
        assert_eq!(e.code, "invalid_thinking");
    }
}

#[test]
fn a_tool_call_ends_the_turn_unless_it_was_cut_off() {
    for (finish, stop) in [
        ("stop", "tool_use"),
        ("tool_calls", "tool_use"),
        ("content_filter", "tool_use"),
        ("length", "max_tokens"),
    ] {
        let m = chat_to_message(
            &fill(
                r#"{"choices":[{"message":{"tool_calls":[{"id":"c","function":{"name":"f","arguments":"{}"}}]},"finish_reason":"@0"}]}"#,
                &[Value::from(finish)],
            ),
            "m",
            &[],
        );
        assert_eq!(m["stop_reason"], stop, "{finish}");
    }
}

#[test]
fn calls_and_tool_uses_are_inverse() {
    let mut ids = IdState::new();
    for input in [
        r#"{"a":[1,null,true],"b":{"c":"d"}}"#,
        "[]",
        "7",
        "null",
        "-3",
    ] {
        let block = fill(
            r#"{"type":"tool_use","id":"t","name":"f","input":"@0"}"#,
            &[val(input)],
        );
        let call = tool_use_to_call(&block, &mut ids);
        let m = chat_to_message(
            &fill(
                r#"{"choices":[{"message":{"tool_calls":["@0"]},"finish_reason":"tool_calls"}]}"#,
                &[call],
            ),
            "m",
            &[],
        );
        assert_eq!(m["content"][0], block, "{input}");
    }
}

#[test]
fn signatures_are_base64_of_a_digest() {
    let a = synthetic_thinking_signature("m", "t");
    assert!(a.starts_with("nimthinking_"));
    assert!(a.len() > "nimthinking_".len());
    assert!(a
        .chars()
        .all(|c| c.is_ascii_alphanumeric() || c == '_' || c == '-'));
}

#[test]
fn search_rounds_are_folded_back() {
    let content: Vec<Json> = [
        r#"{"type":"text","text":" looking "}"#,
        r#"{"type":"server_tool_use","id":"s1","name":"web_search","input":{"query":"q"}}"#,
    ]
    .iter()
    .map(|t| codec::parse(t).unwrap())
    .collect();
    let outward = codec::parse(r#"{"tool_use_id":"s1"}"#).unwrap();
    let model = codec::parse(r#"{"query":"q","results":[]}"#).unwrap();
    let msgs = nim_proxy::bridge::web_search_round_messages(&content, &[(outward, model)]);
    let msgs: Vec<Value> = msgs.iter().map(out).collect();
    assert_eq!(msgs.len(), 2);
    assert_eq!(msgs[0]["role"], "assistant");
    assert_eq!(msgs[0]["content"], "looking");
    assert_eq!(msgs[0]["tool_calls"][0]["id"], "s1");
    assert_eq!(msgs[1]["role"], "tool");
    assert_eq!(msgs[1]["tool_call_id"], "s1");
    assert_eq!(msgs[1]["content"], r#"{"query":"q","results":[]}"#);
    assert_eq!(
        out(&nim_proxy::bridge::web_search_cap_block())["content"][0]["error_code"],
        "max_iterations_exceeded"
    );
    let rounds: Vec<Json> = [
        r#"{"usage":{"input_tokens":3,"output_tokens":4}}"#,
        r#"{"usage":{"input_tokens":10}}"#,
        "{}",
    ]
    .iter()
    .map(|t| codec::parse(t).unwrap())
    .collect();
    assert_eq!(
        codec::print(&nim_proxy::bridge::web_search_usage(&rounds, 0)),
        r#"{"input_tokens":13,"output_tokens":4}"#
    );
    assert_eq!(
        codec::print(&nim_proxy::bridge::web_search_usage(&rounds, 2)),
        r#"{"input_tokens":13,"output_tokens":4,"server_tool_use":{"web_search_requests":2}}"#
    );
}

#[test]
fn the_codec_round_trips() {
    for text in [
        r#"{"a":[1,-2,18446744073709551615,-9223372036854775808,true,null,"x\n\"é"]}"#,
        "0.5",
        "[]",
        "{}",
        r#""""#,
    ] {
        let v = codec::parse(text).unwrap();
        assert_eq!(out(&v), val(text));
        assert_eq!(
            codec::print(&codec::parse_bytes(text.as_bytes()).unwrap()),
            codec::print(&v)
        );
    }
    assert!(codec::parse("{").is_none());
    assert!(codec::parse_bytes(b"\xff").is_none());
    assert_eq!(codec::print(&codec::parse(r#"{"b":1,"a":2,"b":3}"#).unwrap()), r#"{"a":2,"b":3}"#);
}

#[test]
fn a_tool_call_comes_back_as_the_block_it_was() {
    let block = val(
        r#"{"type":"tool_use","id":"t1","name":"n","input":{"$serde_json::private::Other":1,"a":[null,{"b":"c"}]}}"#,
    );
    let mut ids = IdState::new();
    let call = tool_use_to_call(&block, &mut ids);
    let completion = fill(
        r#"{"choices":[{"message":{"tool_calls":["@0"]},"finish_reason":"tool_calls"}]}"#,
        &[call],
    );
    let m = chat_to_message(&completion, "m", &[]);
    assert_eq!(m["content"], fill(r#"["@0"]"#, &[block]));
    assert_eq!(m["stop_reason"], "tool_use");
}
