//! What holds of every request and response the bridge converts.
use crate::bridge::blocks::{
    arguments_of, block_input, call_of, explicit_result_id, result_id_of, synthesized, tool_call, use_id_of,
    IdStateV,
};
use crate::bridge::feed::SearchHitV;
use crate::bridge::request::{
    function_tool, messages_of, offered_description, offered_name, offered_schema, payload_of,
    present, tool_refusal, tools_of, ToolMetaV,
};
use crate::bridge::response::{
    call_block, client_offered, content_of, direct_caller, finish_of, first_choice,
    function_member, message_of_completion, stop_reason_of, use_block,
};
use crate::bridge::search::{linked, search_step, shown, SearchStepV, WebSearchMetaV};
use crate::bridge::thinking::{
    ends_in_prefill, thinking_of, top_p_out_of_range, MIN_THINKING_BUDGET,
};
use crate::bridge::tools::{family_of, known_type};
use crate::codec::json_of_text;
use crate::json::{empty_object, JsonV};
use crate::text::{decimal, digit, non_empty, or_empty};
use vstd::prelude::*;

verus! {

/// Identifiers stay frozen: an id that a tool call or a tool result brings
/// is passed through untouched, and leaves the synthesized ids alone.
pub proof fn law_explicit_ids_are_frozen(ids: IdStateV, block: JsonV)
    ensures
        non_empty(block.get_str("id"@)) is Some ==> use_id_of(ids, block) == (
            block.get_str("id"@)->0,
            ids,
        ),
        non_empty(block.get_str("tool_use_id"@)) is Some ==> result_id_of(ids, block) == (
            block.get_str("tool_use_id"@)->0,
            ids,
        ),
{
}

/// Calls and results without ids pair in lockstep: the result after a call
/// claims the oldest id that waits, which is the call's own where none
/// waited before.
pub proof fn law_idless_results_pair_in_lockstep(ids: IdStateV, call: JsonV, result: JsonV)
    requires
        non_empty(call.get_str("id"@)) is None,
        explicit_result_id(result) is None,
    ensures
        ({
            let (use_id, between) = use_id_of(ids, call);
            let (result_id, end) = result_id_of(between, result);
            &&& use_id == synthesized(ids.next)
            &&& result_id == if ids.pending.len() == 0 {
                use_id
            } else {
                ids.pending[0]
            }
            &&& end.pending == ids.pending.push(use_id).drop_first()
            &&& end.next == ids.next + 1
        }),
{
}

/// A number's decimal digits tell it from every other number.
proof fn lemma_decimal_injective(a: nat, b: nat)
    requires
        decimal(a) == decimal(b),
    ensures
        a == b,
    decreases a,
{
    lemma_decimal_nonempty(a / 10);
    lemma_decimal_nonempty(b / 10);
    assert(decimal(a).last() == decimal(b).last());
    assert(decimal(a).last() == digit(a % 10));
    assert(decimal(b).last() == digit(b % 10));
    assert(digit(a % 10) as u32 == 48 + a % 10);
    assert(digit(b % 10) as u32 == 48 + b % 10);
    if a >= 10 && b >= 10 {
        assert(decimal(a).drop_last() == decimal(a / 10));
        assert(decimal(b).drop_last() == decimal(b / 10));
        lemma_decimal_injective(a / 10, b / 10);
    }
}

proof fn lemma_decimal_nonempty(n: nat)
    ensures
        decimal(n).len() > 0,
{
}

/// No two synthesized ids of a request are the same.
pub proof fn law_synthesized_ids_are_distinct(a: nat, b: nat)
    requires
        synthesized(a) == synthesized(b),
    ensures
        a == b,
{
    let prefix = "toolu_bridge_"@;
    assert(synthesized(a).skip(prefix.len() as int) == decimal(a));
    assert(synthesized(b).skip(prefix.len() as int) == decimal(b));
    lemma_decimal_injective(a, b);
}

/// The keys of a tool, told apart.
proof fn lemma_tool_keys()
    ensures
        "type"@ != "function"@,
        "name"@ != "description"@,
        "name"@ != "parameters"@,
        "name"@ != "arguments"@,
        "id"@ != "type"@,
        "id"@ != "function"@,
{
    reveal_strlit("type");
    reveal_strlit("function");
    reveal_strlit("name");
    reveal_strlit("description");
    reveal_strlit("parameters");
    reveal_strlit("arguments");
    reveal_strlit("id");
    assert("type"@.len() == 4);
    assert("function"@.len() == 8);
    assert("name"@.len() == 4);
    assert("description"@.len() == 11);
    assert("parameters"@.len() == 10);
    assert("arguments"@.len() == 9);
    assert("id"@.len() == 2);
}

/// Every tool that reaches the upstream has its metadata beside it, under
/// the same name.
pub proof fn law_tools_and_metadata_agree(raw: Seq<JsonV>)
    requires
        tools_of(raw) is Ok,
    ensures
        ({
            let t = tools_of(raw)->Ok_0;
            &&& t.tools.len() == t.meta.len()
            &&& forall|i: int|
                0 <= i < t.tools.len() ==> function_member(#[trigger] t.tools[i], "name"@) == Some(
                    JsonV::Str(t.meta[i].name),
                )
        }),
    decreases raw.len(),
{
    if raw.len() > 0 {
        law_tools_and_metadata_agree(raw.drop_last());
        let before = tools_of(raw.drop_last())->Ok_0;
        let tool = raw.last();
        let family = family_of(tool.get_str("type"@));
        if tool is Object && offered_name(tool, family) is Some {
            let name = offered_name(tool, family)->0;
            lemma_tool_keys();
            assert(function_member(
                function_tool(
                    name,
                    offered_description(tool, family),
                    offered_schema(tool, family),
                ),
                "name"@,
            ) == Some(JsonV::Str(name)));
        }
    }
}

/// A server-side tool is never dropped in silence: where any offer is
/// refused, the whole request is, with the first refusal; and where none
/// is, the request is not refused for its tools.
pub proof fn law_refused_tools_refuse_the_request(raw: Seq<JsonV>)
    ensures
        tools_of(raw) is Ok <==> forall|i: int|
            0 <= i < raw.len() && #[trigger] raw[i] is Object ==> tool_refusal(raw[i]) is None,
        tools_of(raw) is Err ==> exists|i: int|
            0 <= i < raw.len() && #[trigger] raw[i] is Object && tool_refusal(raw[i]) == Some(
                tools_of(raw)->Err_0,
            ) && forall|j: int|
                0 <= j < i && #[trigger] raw[j] is Object ==> tool_refusal(raw[j]) is None,
    decreases raw.len(),
{
    if raw.len() > 0 {
        let head = raw.drop_last();
        law_refused_tools_refuse_the_request(head);
        assert forall|i: int| 0 <= i < head.len() implies #[trigger] head[i] == raw[i] by {}
        let n = raw.len() - 1;
        assert(raw[n] == raw.last());
        if tools_of(head) is Err {
            let i = choose|i: int|
                0 <= i < head.len() && #[trigger] head[i] is Object && tool_refusal(head[i])
                    == Some(tools_of(head)->Err_0) && forall|j: int|
                    0 <= j < i && #[trigger] head[j] is Object ==> tool_refusal(head[j]) is None;
            assert(raw[i] is Object);
            assert forall|j: int| 0 <= j < i && #[trigger] raw[j] is Object implies tool_refusal(
                raw[j],
            ) is None by {
                assert(head[j] == raw[j]);
            }
        } else {
            assert forall|j: int| 0 <= j < n && #[trigger] raw[j] is Object implies tool_refusal(
                raw[j],
            ) is None by {
                assert(head[j] == raw[j]);
            }
            if raw.last() is Object && tool_refusal(raw.last()) is Some {
                assert(raw[n] is Object);
                assert(tools_of(raw)->Err_0 == tool_refusal(raw.last())->0);
            }
        }
    }
}

/// A request with an MCP server, or a tool of a type the gateway does not
/// know, is refused.
pub proof fn law_server_side_capabilities_are_refused(body: JsonV, beta: Seq<char>, i: int)
    requires
        body.get_str("model"@) is Some,
        present(body, "mcp_servers"@) is Some || (0 <= i < body.list("tools"@).len() && body.list(
            "tools"@,
        )[i] is Object && !known_type(body.list("tools"@)[i].get_str("type"@))),
    ensures
        payload_of(body, beta) is Err,
        payload_of(body, beta)->Err_0.code == "server_tools_unsupported"@,
{
    let raw = body.list("tools"@);
    law_refused_tools_refuse_the_request(raw);
    if present(body, "mcp_servers"@) is None {
        assert(raw[i] is Object && tool_refusal(raw[i]) is Some);
        assert(tools_of(raw) is Err);
    }
}

/// A `tool_use` block that becomes a chat tool call and comes back is the
/// same block: same id, name and input, and the caller's mark where the
/// tool was offered to the caller. The printed arguments must read back as
/// the input, which `tool_use_to_call` ensures of every printable input.
pub proof fn law_tool_use_round_trip(block: JsonV, i: int, tools: Seq<ToolMetaV>)
    requires
        non_empty(block.get_str("id"@)) is Some,
        json_of_text(arguments_of(block)) == Some(block_input(block)),
    ensures
        ({
            let id = block.get_str("id"@)->0;
            let name = or_empty(block.get_str("name"@));
            let back = use_block("tool_use"@, id, name, block_input(block));
            call_block(call_of(block, id), i, tools, None) == if client_offered(name, tools) {
                back.with("caller"@, direct_caller())
            } else {
                back
            }
        }),
{
    let id = block.get_str("id"@)->0;
    let name = or_empty(block.get_str("name"@));
    let call = tool_call(id, name, arguments_of(block));
    lemma_tool_keys();
    assert(call.get_str("id"@) == Some(id));
    assert(function_member(call, "name"@) == Some(JsonV::Str(name)));
    assert(function_member(call, "arguments"@) == Some(JsonV::Str(arguments_of(block))));
}

/// The completion whose one choice makes one tool call.
pub open spec fn calling(call: JsonV) -> JsonV {
    empty_object().with(
        "choices"@,
        JsonV::Array(
            seq![
                empty_object().with(
                    "message"@,
                    empty_object().with("tool_calls"@, JsonV::Array(seq![call])),
                ).with("finish_reason"@, JsonV::Str("tool_calls"@)),
            ],
        ),
    )
}

/// Offered to nobody, a whole `tool_use` block that becomes a chat tool call
/// and comes back in a completion is all of the message's content, and is
/// the same block.
pub proof fn law_tool_use_message_round_trip(
    id: Seq<char>,
    name: Seq<char>,
    input: JsonV,
    model: Seq<char>,
)
    requires
        id.len() > 0,
        json_of_text(arguments_of(use_block("tool_use"@, id, name, input))) == Some(input),
    ensures
        ({
            let block = use_block("tool_use"@, id, name, input);
            let completion = calling(call_of(block, id));
            let message = message_of_completion(completion, model, Seq::empty(), None);
            &&& message.list("content"@) == seq![block]
            &&& message.get_str("stop_reason"@) == Some("tool_use"@)
        }),
{
    let block = use_block("tool_use"@, id, name, input);
    let call = call_of(block, id);
    let completion = calling(call);
    let message = message_of_completion(completion, model, Seq::empty(), None);
    reveal_strlit("type");
    reveal_strlit("id");
    reveal_strlit("name");
    reveal_strlit("input");
    reveal_strlit("message");
    reveal_strlit("finish_reason");
    reveal_strlit("tool_calls");
    reveal_strlit("length");
    reveal_strlit("content");
    reveal_strlit("reasoning_content");
    reveal_strlit("stop_reason");
    reveal_strlit("stop_sequence");
    reveal_strlit("usage");
    assert("type"@[0] == 't' && "name"@[0] == 'n');
    assert("input"@.len() == 5 && "id"@.len() == 2 && "name"@.len() == 4 && "type"@.len() == 4);
    assert("message"@.len() == 7 && "finish_reason"@.len() == 13 && "tool_calls"@.len() == 10);
    assert("content"@.len() == 7 && "reasoning_content"@.len() == 17 && "length"@.len() == 6);
    assert("stop_reason"@.len() == 11 && "stop_sequence"@.len() == 13 && "usage"@.len() == 5);
    assert(block.get_str("id"@) == Some(id));
    assert(block.get_str("name"@) == Some(name));
    assert(block.get("input"@) == Some(input));
    law_tool_use_round_trip(block, 0, Seq::empty());
    let choice = completion.list("choices"@)[0];
    let said = empty_object().with("tool_calls"@, JsonV::Array(seq![call]));
    assert(first_choice(completion) == Some(choice));
    assert(choice.get("message"@) == Some(said));
    assert(said.get_str("reasoning_content"@) is None && said.get_str("content"@) is None);
    assert(said.list("tool_calls"@) == seq![call]);
    assert(content_of(completion, model, Seq::empty(), None) == seq![block]);
    assert(finish_of(completion) == Some("tool_calls"@));
}

/// A message stops for one of three reasons.
pub proof fn law_stop_reason_vocabulary(finish: Option<Seq<char>>, called: bool)
    ensures
        ({
            let r = stop_reason_of(finish, called);
            r == "max_tokens"@ || r == "tool_use"@ || r == "end_turn"@
        }),
        called && finish != Some("length"@) ==> stop_reason_of(finish, called) == "tool_use"@,
{
}

/// Enabled thinking keeps every rule: a budget at or above the floor, below
/// `max_tokens` unless interleaved, no temperature, no `top_p` out of range,
/// no forced tool and no prefill. And a request that keeps them all gets
/// the thinking it asks for.
pub proof fn law_enabled_thinking_keeps_the_rules(
    v: Option<JsonV>,
    max_tokens: Option<JsonV>,
    temperature: Option<JsonV>,
    top_p: Option<JsonV>,
    forced_tool: bool,
    tools: Option<JsonV>,
    messages: Option<JsonV>,
    beta: Seq<char>,
)
    ensures
        ({
            let r = thinking_of(
                v,
                max_tokens,
                temperature,
                top_p,
                forced_tool,
                tools,
                messages,
                beta,
            );
            r is Ok && r->Ok_0.enabled ==> {
                &&& r->Ok_0.budget_tokens is Some
                &&& r->Ok_0.budget_tokens->0 >= MIN_THINKING_BUDGET
                &&& max_tokens is Some && max_tokens->0.as_u64() is Some ==> r->Ok_0.interleaved
                    || r->Ok_0.budget_tokens->0 < max_tokens->0.as_u64()->0
                &&& temperature is None
                &&& !top_p_out_of_range(top_p)
                &&& !forced_tool
                &&& !ends_in_prefill(messages)
            }
        }),
{
}

/// A call of the search either asks the provider or costs no request; one
/// past the offer's cap never asks.
pub proof fn law_search_cap_is_kept(id: Seq<char>, input: JsonV, meta: WebSearchMetaV, uses: u32)
    ensures
        match search_step(id, input, meta, uses) {
            SearchStepV::Answered(o) => o.requests == 0,
            SearchStepV::Ask { .. } => meta.max_uses is None || uses < meta.max_uses->0,
        },
{
}

proof fn lemma_linked_have_urls(hits: Seq<SearchHitV>)
    ensures
        forall|i: int| 0 <= i < linked(hits).len() ==> (#[trigger] linked(hits)[i]).url.len() > 0,
    decreases hits.len(),
{
    if hits.len() > 0 {
        lemma_linked_have_urls(hits.drop_last());
    }
}

/// No more hits are shown than were asked for, and each has a url.
pub proof fn law_shown_hits_are_bounded(hits: Seq<SearchHitV>, max_results: u32)
    ensures
        shown(hits, max_results).len() <= max_results || shown(hits, max_results).len() <= 1,
        forall|i: int|
            0 <= i < shown(hits, max_results).len() ==> (#[trigger] shown(
                hits,
                max_results,
            )[i]).url.len() > 0,
{
    lemma_linked_have_urls(hits);
}

/// The members of the chat payload, told apart.
proof fn lemma_payload_keys()
    ensures
        "thinking"@ != "model"@,
        "thinking"@ != "messages"@,
        "thinking"@ != "max_tokens"@,
        "thinking"@ != "temperature"@,
        "thinking"@ != "top_p"@,
        "thinking"@ != "stop"@,
        "thinking"@ != "stream"@,
        "thinking"@ != "seed"@,
        "thinking"@ != "tools"@,
        "thinking"@ != "tool_choice"@,
        "thinking"@ != "parallel_tool_calls"@,
        "model"@ != "messages"@,
        "model"@ != "max_tokens"@,
        "model"@ != "temperature"@,
        "model"@ != "top_p"@,
        "model"@ != "stop"@,
        "model"@ != "stream"@,
        "model"@ != "seed"@,
        "model"@ != "tools"@,
        "model"@ != "tool_choice"@,
        "model"@ != "parallel_tool_calls"@,
        "messages"@ != "max_tokens"@,
        "messages"@ != "temperature"@,
        "messages"@ != "top_p"@,
        "messages"@ != "stop"@,
        "messages"@ != "stream"@,
        "messages"@ != "seed"@,
        "messages"@ != "tools"@,
        "messages"@ != "tool_choice"@,
        "messages"@ != "parallel_tool_calls"@,
{
    reveal_strlit("thinking");
    reveal_strlit("model");
    reveal_strlit("messages");
    reveal_strlit("max_tokens");
    reveal_strlit("temperature");
    reveal_strlit("top_p");
    reveal_strlit("stop");
    reveal_strlit("stream");
    reveal_strlit("seed");
    reveal_strlit("tools");
    reveal_strlit("tool_choice");
    reveal_strlit("parallel_tool_calls");
    assert("thinking"@[0] == 't' && "messages"@[0] == 'm');
    assert("model"@[0] == 'm' && "tools"@[0] == 't' && "top_p"@[0] == 't');
    assert("messages"@.len() == 8 && "model"@.len() == 5 && "thinking"@.len() == 8);
}

/// The chat payload names the request's model, holds the converted
/// conversation and carries no `thinking` of its own.
pub proof fn law_payload_members(body: JsonV, beta: Seq<char>)
    requires
        payload_of(body, beta) is Ok,
    ensures
        payload_of(body, beta)->Ok_0.json.get_str("model"@) == body.get_str("model"@),
        payload_of(body, beta)->Ok_0.json.get("messages"@) == Some(
            JsonV::Array(messages_of(body)),
        ),
        payload_of(body, beta)->Ok_0.json.get("thinking"@) is None,
{
    lemma_payload_keys();
}

}
