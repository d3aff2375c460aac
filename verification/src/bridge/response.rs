//! Response-side transform: an upstream chat completion becomes an
//! Anthropic message.
use crate::bridge::blocks::{text_block, text_block_of};
use crate::bridge::request::{metas, ToolMeta, ToolMetaV};
use crate::bridge::search::{opt_search_ref, WebSearchMeta, WebSearchMetaV};
use crate::bridge::thinking::{signature_of, synthetic_thinking_signature};
use crate::bridge::tools::ToolFamily;
use crate::codec::{json_of_text, parse};
use crate::json::{
    empty_object, items_view, lemma_items_push, lemma_items_view, opt_json, Json, JsonV,
};
use crate::text::{
    concat, decimal, decimal_text, is_empty, non_empty, or_empty, owned_or_empty, same, trim,
    trimmed, unless_empty,
};
use vstd::prelude::*;

verus! {

broadcast use vstd::string::group_string_axioms;

/// The first choice of a completion.
pub open spec fn first_choice(completion: JsonV) -> Option<JsonV> {
    let choices = completion.list("choices"@);
    if choices.len() > 0 {
        Some(choices[0])
    } else {
        None
    }
}

/// The message of the first choice; null where there is none.
pub open spec fn choice_message(completion: JsonV) -> JsonV {
    match first_choice(completion) {
        Some(choice) => match choice.get("message"@) {
            Some(message) => message,
            None => JsonV::Null,
        },
        None => JsonV::Null,
    }
}

/// The `thinking` block of a message's reasoning, unless that is blank.
pub open spec fn thinking_blocks(message: JsonV, model: Seq<char>) -> Seq<JsonV> {
    match message.get_str("reasoning_content"@) {
        Some(reasoning) => {
            let t = trimmed(reasoning);
            if t.len() > 0 {
                seq![
                    empty_object().with("type"@, JsonV::Str("thinking"@)).with(
                        "thinking"@,
                        JsonV::Str(t),
                    ).with("signature"@, JsonV::Str(signature_of(model, t))),
                ]
            } else {
                Seq::empty()
            }
        },
        None => Seq::empty(),
    }
}

/// The `text` block of a message's content, unless that is empty.
pub open spec fn text_blocks(message: JsonV) -> Seq<JsonV> {
    match non_empty(message.get_str("content"@)) {
        Some(text) => seq![text_block(text)],
        None => Seq::empty(),
    }
}

/// A member of a call's `function`.
pub open spec fn function_member(call: JsonV, key: Seq<char>) -> Option<JsonV> {
    match call.get("function"@) {
        Some(f) => f.get(key),
        None => None,
    }
}

/// The name of the function a call names.
pub open spec fn call_name(call: JsonV) -> Seq<char> {
    match function_member(call, "name"@) {
        Some(name) => or_empty(name.as_str()),
        None => Seq::empty(),
    }
}

/// The input a call's `arguments` stand for: the JSON in the text, the text
/// itself where that is no JSON, the empty object where there is none.
pub open spec fn input_of_arguments(arguments: Option<JsonV>) -> JsonV {
    match arguments {
        None => empty_object(),
        Some(JsonV::Null) => empty_object(),
        Some(JsonV::Str(raw)) => match json_of_text(raw) {
            Some(v) => v,
            None => JsonV::Str(raw),
        },
        Some(other) => other,
    }
}

/// The id of the `i`th call: its own, or one made of its place.
pub open spec fn call_id(call: JsonV, i: int) -> Seq<char> {
    match non_empty(call.get_str("id"@)) {
        Some(id) => id,
        None => "toolu_bridge_call_"@ + decimal(i as nat),
    }
}

/// Whether a tool of this name was offered for the caller to run.
pub open spec fn client_offered(name: Seq<char>, tools: Seq<ToolMetaV>) -> bool {
    exists|i: int|
        0 <= i < tools.len() && (#[trigger] tools[i]).name == name && tools[i].family
            != ToolFamily::WebSearch && tools[i].family != ToolFamily::WebFetch
}

/// Whether a call names the tool that the gateway runs itself.
pub open spec fn is_server_call(name: Seq<char>, web_search: Option<WebSearchMetaV>) -> bool {
    web_search is Some && web_search->0.name == name
}

/// A block that passes a tool call on.
pub open spec fn use_block(
    kind: Seq<char>,
    id: Seq<char>,
    name: Seq<char>,
    input: JsonV,
) -> JsonV {
    empty_object().with("type"@, JsonV::Str(kind)).with("id"@, JsonV::Str(id)).with(
        "name"@,
        JsonV::Str(name),
    ).with("input"@, input)
}

/// The mark of a call that the caller runs.
pub open spec fn direct_caller() -> JsonV {
    empty_object().with("type"@, JsonV::Str("direct"@))
}

/// The block of the `i`th tool call.
pub open spec fn call_block(
    call: JsonV,
    i: int,
    tools: Seq<ToolMetaV>,
    web_search: Option<WebSearchMetaV>,
) -> JsonV {
    let name = call_name(call);
    let input = input_of_arguments(function_member(call, "arguments"@));
    if is_server_call(name, web_search) {
        use_block("server_tool_use"@, call_id(call, i), name, input)
    } else {
        let block = use_block("tool_use"@, call_id(call, i), name, input);
        if client_offered(name, tools) {
            block.with("caller"@, direct_caller())
        } else {
            block
        }
    }
}

/// The blocks of all tool calls, in order.
pub open spec fn call_blocks(
    calls: Seq<JsonV>,
    tools: Seq<ToolMetaV>,
    web_search: Option<WebSearchMetaV>,
) -> Seq<JsonV> {
    Seq::new(calls.len(), |i: int| call_block(calls[i], i, tools, web_search))
}

/// The content of the Anthropic message: thinking, then text, then calls.
pub open spec fn content_of(
    completion: JsonV,
    model: Seq<char>,
    tools: Seq<ToolMetaV>,
    web_search: Option<WebSearchMetaV>,
) -> Seq<JsonV> {
    let message = choice_message(completion);
    thinking_blocks(message, model) + text_blocks(message) + call_blocks(
        message.list("tool_calls"@),
        tools,
        web_search,
    )
}

/// The `finish_reason` of the first choice.
pub open spec fn finish_of(completion: JsonV) -> Option<Seq<char>> {
    match first_choice(completion) {
        Some(choice) => choice.get_str("finish_reason"@),
        None => None,
    }
}

/// `length` is `max_tokens`; `tool_calls`, or any other reason with tool
/// calls emitted, is `tool_use`; anything else is `end_turn`.
pub open spec fn stop_reason_of(finish: Option<Seq<char>>, called: bool) -> Seq<char> {
    if finish == Some("length"@) {
        "max_tokens"@
    } else if finish == Some("tool_calls"@) || called {
        "tool_use"@
    } else {
        "end_turn"@
    }
}

/// A token count of the completion's usage; zero where there is none.
pub open spec fn usage_count(completion: JsonV, key: Seq<char>) -> u64 {
    match completion.get("usage"@) {
        Some(usage) => match usage.get_u64(key) {
            Some(n) => n,
            None => 0,
        },
        None => 0,
    }
}

/// Token counts in the Anthropic shape.
pub open spec fn usage_json(input: int, output: int) -> JsonV {
    empty_object().with("input_tokens"@, JsonV::Int(input)).with(
        "output_tokens"@,
        JsonV::Int(output),
    )
}

/// The Anthropic message of a completion.
pub open spec fn message_of_completion(
    completion: JsonV,
    model: Seq<char>,
    tools: Seq<ToolMetaV>,
    web_search: Option<WebSearchMetaV>,
) -> JsonV {
    empty_object().with("id"@, JsonV::Str("msg_"@ + or_empty(completion.get_str("id"@)))).with(
        "type"@,
        JsonV::Str("message"@),
    ).with("role"@, JsonV::Str("assistant"@)).with("model"@, JsonV::Str(model)).with(
        "content"@,
        JsonV::Array(content_of(completion, model, tools, web_search)),
    ).with(
        "stop_reason"@,
        JsonV::Str(
            stop_reason_of(
                finish_of(completion),
                choice_message(completion).list("tool_calls"@).len() > 0,
            ),
        ),
    ).with("stop_sequence"@, JsonV::Null).with(
        "usage"@,
        usage_json(
            usage_count(completion, "prompt_tokens"@) as int,
            usage_count(completion, "completion_tokens"@) as int,
        ),
    )
}

/// The first choice of a completion.
fn choice(completion: &Json) -> (r: Option<&Json>)
    ensures
        opt_json(r) == first_choice(completion@),
{
    let choices = completion.list("choices");
    proof {
        lemma_items_view(choices@);
    }
    if choices.len() > 0 {
        Some(&choices[0])
    } else {
        None
    }
}

/// A member of the first choice's message.
fn message_member<'a>(completion: &'a Json, key: &str) -> (r: Option<&'a Json>)
    ensures
        opt_json(r) == choice_message(completion@).get(key@),
{
    match choice(completion) {
        Some(choice) => match choice.get("message") {
            Some(message) => message.get(key),
            None => None,
        },
        None => None,
    }
}

/// A member of a call's `function`.
fn member_of_function<'a>(call: &'a Json, key: &str) -> (r: Option<&'a Json>)
    ensures
        opt_json(r) == function_member(call@, key@),
{
    match call.get("function") {
        Some(f) => f.get(key),
        None => None,
    }
}

/// The name of the function a call names.
fn name_of_call(call: &Json) -> (r: String)
    ensures
        r@ == call_name(call@),
{
    match member_of_function(call, "name") {
        Some(name) => owned_or_empty(name.as_str()),
        None => String::new(),
    }
}

/// The input a call's `arguments` stand for.
fn input_of(arguments: Option<&Json>) -> (r: Json)
    ensures
        r@ == input_of_arguments(opt_json(arguments)),
{
    match arguments {
        None => Json::object(),
        Some(Json::Null) => Json::object(),
        Some(Json::Str(raw)) => match parse(raw.as_str()) {
            Some(v) => v,
            None => Json::Str(raw.clone()),
        },
        Some(other) => other.clone(),
    }
}

/// Whether a tool of this name was offered for the caller to run.
fn offered_to_client(name: &str, tool_meta: &[ToolMeta]) -> (r: bool)
    ensures
        r == client_offered(name@, metas(tool_meta@)),
{
    let ghost tools = metas(tool_meta@);
    let mut i: usize = 0;
    while i < tool_meta.len()
        invariant
            i <= tool_meta@.len(),
            tools == metas(tool_meta@),
            forall|j: int|
                0 <= j < i ==> !((#[trigger] tools[j]).name == name@ && tools[j].family
                    != ToolFamily::WebSearch && tools[j].family != ToolFamily::WebFetch),
        decreases tool_meta@.len() - i,
    {
        let m = &tool_meta[i];
        assert(tools[i as int] == m@);
        if same(m.name.as_str(), name) && m.family != ToolFamily::WebSearch && m.family
            != ToolFamily::WebFetch {
            return true;
        }
        i = i + 1;
    }
    false
}

/// The block of the `i`th tool call.
///
/// The gateway's `tool_use` blocks are all run by the caller, so the direct
/// caller is echoed. The one exception is an in-gateway `web_search`: the
/// call comes back as `server_tool_use` and the gateway's executor — not
/// the client — runs it, so it carries no caller. Web-family offers that
/// the request did not pair with an executor keep the plain `tool_use`.
fn block_of_call(
    call: &Json,
    i: usize,
    tool_meta: &[ToolMeta],
    web_search: Option<&WebSearchMeta>,
) -> (r: Json)
    ensures
        r@ == call_block(call@, i as int, metas(tool_meta@), opt_search_ref(web_search)),
{
    let name = name_of_call(call);
    let input = input_of(member_of_function(call, "arguments"));
    let id = match unless_empty(call.get_str("id")) {
        Some(id) => id.to_owned(),
        None => concat("toolu_bridge_call_", decimal_text(i as u128).as_str()),
    };
    let server = match web_search {
        Some(meta) => same(meta.name.as_str(), name.as_str()),
        None => false,
    };
    let kind = if server {
        "server_tool_use"
    } else {
        "tool_use"
    };
    let echo = !server && offered_to_client(name.as_str(), tool_meta);
    let block = Json::object().with("type", Json::text(kind)).with("id", Json::Str(id)).with(
        "name",
        Json::Str(name),
    ).with("input", input);
    if echo {
        block.with("caller", Json::object().with("type", Json::text("direct")))
    } else {
        block
    }
}

/// A token count of the completion's usage.
fn count(completion: &Json, key: &str) -> (r: u64)
    ensures
        r == usage_count(completion@, key@),
{
    match completion.get("usage") {
        Some(usage) => match usage.get_u64(key) {
            Some(n) => n,
            None => 0,
        },
        None => 0,
    }
}

/// Append a block.
fn push_block(content: &mut Vec<Json>, block: Json)
    ensures
        items_view(final(content)@) == items_view(old(content)@).push(block@),
{
    proof {
        lemma_items_push(content@, block);
    }
    content.push(block);
}

/// The content of the Anthropic message.
fn content_blocks_of(
    completion: &Json,
    req_model: &str,
    tool_meta: &[ToolMeta],
    web_search: Option<&WebSearchMeta>,
) -> (r: Vec<Json>)
    ensures
        items_view(r@) == content_of(
            completion@,
            req_model@,
            metas(tool_meta@),
            opt_search_ref(web_search),
        ),
{
    let ghost message = choice_message(completion@);
    let ghost tools = metas(tool_meta@);
    let ghost search = opt_search_ref(web_search);
    let mut content: Vec<Json> = Vec::new();
    assert(items_view(content@) == Seq::<JsonV>::empty());
    // Reasoning models surface their chain of thought in
    // `reasoning_content`; that becomes a leading `thinking` block carrying
    // a synthetic signature (documented as such — an identity marker, not
    // cryptographic thinking integrity).
    match message_member(completion, "reasoning_content") {
        Some(v) => match v.as_str() {
            Some(reasoning) => {
                let t = trim(reasoning);
                if !is_empty(t) {
                    let signature = synthetic_thinking_signature(req_model, t);
                    push_block(
                        &mut content,
                        Json::object().with("type", Json::text("thinking")).with(
                            "thinking",
                            Json::text(t),
                        ).with("signature", Json::Str(signature)),
                    );
                }
            },
            None => {},
        },
        None => {},
    }
    let ghost first = thinking_blocks(message, req_model@);
    assert(items_view(content@) == first);
    match message_member(completion, "content") {
        Some(v) => match unless_empty(v.as_str()) {
            Some(text) => push_block(&mut content, text_block_of(text)),
            None => {},
        },
        None => {},
    }
    let ghost head = first + text_blocks(message);
    assert(items_view(content@) == head);
    let ghost calls_v = message.list("tool_calls"@);
    let ghost tail = call_blocks(calls_v, tools, search);
    match message_member(completion, "tool_calls") {
        Some(Json::Array(calls)) => {
            assert(calls_v == items_view(calls@));
            let mut i: usize = 0;
            assert(head + tail.take(0) == head);
            while i < calls.len()
                invariant
                    i <= calls@.len(),
                    calls_v == items_view(calls@),
                    tail == call_blocks(calls_v, tools, search),
                    tools == metas(tool_meta@),
                    search == opt_search_ref(web_search),
                    items_view(content@) == head + tail.take(i as int),
                decreases calls@.len() - i,
            {
                proof {
                    lemma_items_view(calls@);
                    assert(tail[i as int] == call_block(calls_v[i as int], i as int, tools, search));
                    assert(head + tail.take(i + 1) == (head + tail.take(i as int)).push(
                        tail[i as int],
                    ));
                }
                push_block(&mut content, block_of_call(&calls[i], i, tool_meta, web_search));
                i = i + 1;
            }
            assert(tail.take(tail.len() as int) == tail);
        },
        _ => {
            assert(tail == Seq::<JsonV>::empty());
            assert(head + tail == head);
        },
    }
    content
}

/// Why the message ended, in the Anthropic vocabulary.
fn stop_reason(completion: &Json) -> (r: &'static str)
    ensures
        r@ == stop_reason_of(
            finish_of(completion@),
            choice_message(completion@).list("tool_calls"@).len() > 0,
        ),
{
    let called = match message_member(completion, "tool_calls") {
        Some(Json::Array(calls)) => {
            proof {
                lemma_items_view(calls@);
            }
            calls.len() > 0
        },
        _ => false,
    };
    let finish = match choice(completion) {
        Some(choice) => choice.get_str("finish_reason"),
        None => None,
    };
    match finish {
        Some(f) => if same(f, "length") {
            "max_tokens"
        } else if same(f, "tool_calls") || called {
            "tool_use"
        } else {
            "end_turn"
        },
        None => if called {
            "tool_use"
        } else {
            "end_turn"
        },
    }
}

/// Response-side transform: upstream chat completion → Anthropic message
/// JSON returned to the Messages client. Pure — no I/O, no pool keys. The
/// request model name is echoed back, not the upstream one.
///
/// `stop_reason` mapping: `length` → `max_tokens`; `tool_calls` or any
/// finish reason with emitted tool_use blocks → `tool_use`; otherwise
/// `end_turn` (fail-closed: an unknown reason with no tool blocks still
/// reports a terminal stop).
pub fn chat_to_message(completion: &Json, req_model: &str, tool_meta: &[ToolMeta]) -> (r: Json)
    ensures
        r@ == message_of_completion(completion@, req_model@, metas(tool_meta@), None),
{
    chat_to_message_with_web_search(completion, req_model, tool_meta, None)
}

/// The response transform with the in-gateway `web_search` executor
/// enabled: an upstream tool call that names the offered web_search tool
/// comes back as a `server_tool_use` block (no `caller` echo — the gateway
/// runs it), not as a `tool_use`.
pub fn chat_to_message_with_web_search(
    completion: &Json,
    req_model: &str,
    tool_meta: &[ToolMeta],
    web_search: Option<&WebSearchMeta>,
) -> (r: Json)
    ensures
        r@ == message_of_completion(
            completion@,
            req_model@,
            metas(tool_meta@),
            opt_search_ref(web_search),
        ),
{
    let content = content_blocks_of(completion, req_model, tool_meta, web_search);
    let upstream_id = owned_or_empty(completion.get_str("id"));
    let msg_id = concat("msg_", upstream_id.as_str());
    Json::object().with("id", Json::Str(msg_id)).with("type", Json::text("message")).with(
        "role",
        Json::text("assistant"),
    ).with("model", Json::text(req_model)).with("content", Json::Array(content)).with(
        "stop_reason",
        Json::text(stop_reason(completion)),
    ).with("stop_sequence", Json::Null).with(
        "usage",
        Json::object().with("input_tokens", Json::uint(count(completion, "prompt_tokens"))).with(
            "output_tokens",
            Json::uint(count(completion, "completion_tokens")),
        ),
    )
}

}
