//! What the chat payload takes over from a request: its settings as they
//! stand, its tools and its choice of tools, and the thinking it asks for;
//! and exactly which requests are taken.
use crate::bridge::blocks::{blocks_of, type_is};
use crate::bridge::request::{choice_of, payload_of, tool_refusal, tools_of, tools_step, ToolsV};
use crate::bridge::request_laws::{lemma_parts, parts};
use crate::bridge::thinking::{is_prefill, lists_beta, thinking_of};
use crate::bridge::tools::{
    computer_actions, default_description, default_name, editor_commands, family_of,
    family_schema, ToolFamily,
};
use crate::json::JsonV;
use crate::text::{split_on, trimmed};
use vstd::prelude::*;

verus! {

/// The members of the payload and of tools, told apart.
proof fn lemma_payload_keys()
    ensures
        "model"@ != "messages"@,
        "model"@ != "max_tokens"@,
        "model"@ != "temperature"@,
        "model"@ != "top_p"@,
        "model"@ != "stop"@,
        "model"@ != "stream"@,
        "model"@ != "seed"@,
        "model"@ != "tools"@,
        "model"@ != "tool_choice"@,
        "model"@ != "parallel_tool_calls"@,
        "messages"@ != "max_tokens"@,
        "messages"@ != "temperature"@,
        "messages"@ != "top_p"@,
        "messages"@ != "stop"@,
        "messages"@ != "stream"@,
        "messages"@ != "seed"@,
        "messages"@ != "tools"@,
        "messages"@ != "tool_choice"@,
        "messages"@ != "parallel_tool_calls"@,
        "max_tokens"@ != "temperature"@,
        "max_tokens"@ != "top_p"@,
        "max_tokens"@ != "stop"@,
        "max_tokens"@ != "stream"@,
        "max_tokens"@ != "seed"@,
        "max_tokens"@ != "tools"@,
        "max_tokens"@ != "tool_choice"@,
        "max_tokens"@ != "parallel_tool_calls"@,
        "temperature"@ != "top_p"@,
        "temperature"@ != "stop"@,
        "temperature"@ != "stream"@,
        "temperature"@ != "seed"@,
        "temperature"@ != "tools"@,
        "temperature"@ != "tool_choice"@,
        "temperature"@ != "parallel_tool_calls"@,
        "top_p"@ != "stop"@,
        "top_p"@ != "stream"@,
        "top_p"@ != "seed"@,
        "top_p"@ != "tools"@,
        "top_p"@ != "tool_choice"@,
        "top_p"@ != "parallel_tool_calls"@,
        "stop"@ != "stream"@,
        "stop"@ != "seed"@,
        "stop"@ != "tools"@,
        "stop"@ != "tool_choice"@,
        "stop"@ != "parallel_tool_calls"@,
        "stream"@ != "seed"@,
        "stream"@ != "tools"@,
        "stream"@ != "tool_choice"@,
        "stream"@ != "parallel_tool_calls"@,
        "seed"@ != "tools"@,
        "seed"@ != "tool_choice"@,
        "seed"@ != "parallel_tool_calls"@,
        "tools"@ != "tool_choice"@,
        "tools"@ != "parallel_tool_calls"@,
        "tool_choice"@ != "parallel_tool_calls"@,
{
    reveal_strlit("model");
    reveal_strlit("messages");
    reveal_strlit("max_tokens");
    reveal_strlit("temperature");
    reveal_strlit("top_p");
    reveal_strlit("stop");
    reveal_strlit("stream");
    reveal_strlit("seed");
    reveal_strlit("tools");
    reveal_strlit("tool_choice");
    reveal_strlit("parallel_tool_calls");
    assert("model"@[0] == 'm' && "tools"@[0] == 't' && "top_p"@[0] == 't');
    assert("tools"@[2] == 'o' && "top_p"@[2] == 'p');
    assert("stop"@[1] == 't' && "seed"@[1] == 'e');
    assert("model"@.len() == 5 && "tools"@.len() == 5 && "top_p"@.len() == 5);
    assert("messages"@.len() == 8 && "max_tokens"@.len() == 10 && "temperature"@.len() == 11);
    assert("stop"@.len() == 4 && "seed"@.len() == 4 && "stream"@.len() == 6);
    assert("tool_choice"@.len() == 11 && "parallel_tool_calls"@.len() == 19);
    assert("temperature"@[1] == 'e' && "tool_choice"@[1] == 'o');
}

/// A member of the request that is there and not null.
pub open spec fn given(body: JsonV, key: Seq<char>) -> Option<JsonV> {
    match body.get(key) {
        Some(JsonV::Null) => None,
        other => other,
    }
}

/// Whether parallel calls are asked for: by name, or by not being disabled.
pub open spec fn asked_parallel(body: JsonV) -> Option<bool> {
    match body.get("parallel_tool_use"@) {
        Some(JsonV::Bool(b)) => Some(b),
        _ => match body.get("tool_choice"@) {
            Some(choice) => match choice.get("disable_parallel_tool_use"@) {
                Some(JsonV::Bool(b)) => Some(!b),
                _ => None,
            },
            None => None,
        },
    }
}

/// The payload takes the request's settings over as they stand, each under
/// its own name but for the stop sequences; it offers the tools where there
/// are any, and only then says whether calls may be parallel; and it has no
/// other member.
pub proof fn law_payload_takes_the_settings_over(body: JsonV, beta: Seq<char>, key: Seq<char>)
    requires
        payload_of(body, beta) is Ok,
    ensures
        ({
            let p = payload_of(body, beta)->Ok_0;
            &&& p.json.get("model"@) == body.get("model"@)
            &&& p.json.get("max_tokens"@) == given(body, "max_tokens"@)
            &&& p.json.get("temperature"@) == given(body, "temperature"@)
            &&& p.json.get("top_p"@) == given(body, "top_p"@)
            &&& p.json.get("stop"@) == given(body, "stop_sequences"@)
            &&& p.json.get("stream"@) == given(body, "stream"@)
            &&& p.json.get("seed"@) == given(body, "seed"@)
            &&& p.json.get("tools"@) == if p.tools.len() > 0 {
                Some(JsonV::Array(p.tools))
            } else {
                None
            }
            &&& p.json.get("tool_choice"@) == p.tool_choice
            &&& p.json.get("parallel_tool_calls"@) == if p.tools.len() > 0 {
                match asked_parallel(body) {
                    Some(b) => Some(JsonV::Bool(b)),
                    None => None,
                }
            } else {
                None
            }
            &&& p.json.get(key) is Some ==> key == "model"@ || key == "messages"@ || key
                == "max_tokens"@ || key == "temperature"@ || key == "top_p"@ || key == "stop"@
                || key == "stream"@ || key == "seed"@ || key == "tools"@ || key == "tool_choice"@
                || key == "parallel_tool_calls"@
        }),
{
    lemma_payload_keys();
}

/// A choice of tools in the chat dialect: the words `any` and `required`
/// force a tool, other words stand; `auto`, `any` and `none` are words; a
/// named tool is a function of that name and forces it; anything else is no
/// choice. A tool without a name is refused.
pub proof fn law_tool_choices(v: Option<JsonV>)
    ensures
        match v {
            Some(JsonV::Str(s)) => {
                &&& (s == "any"@ || s == "required"@) ==> choice_of(v) == Ok::<
                    (Option<JsonV>, bool),
                    crate::bridge::error::BridgeErrorV,
                >((Some(JsonV::Str("required"@)), true))
                &&& s != "any"@ && s != "required"@ ==> choice_of(v) == Ok::<
                    (Option<JsonV>, bool),
                    crate::bridge::error::BridgeErrorV,
                >((Some(JsonV::Str(s)), false))
            },
            Some(JsonV::Object(m)) => {
                let kind = v->0.get_str("type"@);
                let name = v->0.get_str("name"@);
                let r = choice_of(v);
                &&& r is Err <==> kind == Some("tool"@) && name is None
                &&& kind == Some("auto"@) || kind == Some("none"@) ==> r->Ok_0 == (
                    Some(JsonV::Str(kind->0)),
                    false,
                )
                &&& kind == Some("any"@) ==> r->Ok_0 == (Some(JsonV::Str("required"@)), true)
                &&& kind == Some("tool"@) && name is Some ==> r->Ok_0.1 && r->Ok_0.0 is Some
                    && r->Ok_0.0->0.get_str("type"@) == Some("function"@)
                    && r->Ok_0.0->0.get("function"@) is Some && r->Ok_0.0->0.get(
                    "function"@,
                )->0.get_str("name"@) == name
                &&& kind != Some("auto"@) && kind != Some("none"@) && kind != Some("any"@) && kind
                    != Some("tool"@) ==> r->Ok_0 == (None::<JsonV>, false)
            },
            _ => choice_of(v) == Ok::<
                (Option<JsonV>, bool),
                crate::bridge::error::BridgeErrorV,
            >((None::<JsonV>, false)),
        },
{
    reveal_strlit("auto");
    reveal_strlit("none");
    reveal_strlit("any");
    reveal_strlit("tool");
    reveal_strlit("type");
    reveal_strlit("function");
    assert("auto"@[0] == 'a' && "none"@[0] == 'n' && "tool"@[0] == 't' && "any"@.len() == 3);
    assert("auto"@.len() == 4 && "none"@.len() == 4 && "tool"@.len() == 4);
    assert("type"@.len() == 4 && "function"@.len() == 8);
}

/// Whether a tool's type starts with the given words.
pub open spec fn of_kind(tool: JsonV, words: Seq<char>) -> bool {
    match tool.get_str("type"@) {
        Some(t) => words.is_prefix_of(t),
        None => false,
    }
}

/// Whether a tool's type is one of a family with a name of its own.
pub open spec fn of_family(tool: JsonV) -> bool {
    of_kind(tool, "bash_"@) || of_kind(tool, "text_editor_"@) || of_kind(tool, "memory_"@)
        || of_kind(tool, "computer_"@) || of_kind(tool, "web_search_"@) || of_kind(
        tool,
        "web_fetch_"@,
    )
}

/// Whether a caller may use a tool directly.
pub open spec fn direct(tool: JsonV) -> bool {
    match tool.get("allowed_callers"@) {
        None => true,
        Some(JsonV::Str(s)) => s == "direct"@,
        Some(JsonV::Array(items)) => items.contains(JsonV::Str("direct"@)),
        _ => false,
    }
}

/// Whether a tool can be offered: it is the caller's own, or of a family,
/// and its caller may use it directly.
pub open spec fn offerable(tool: JsonV) -> bool {
    (tool.get_str("type"@) is None || tool.get_str("type"@) == Some("custom"@) || of_family(tool))
        && direct(tool)
}

proof fn lemma_family(tool: JsonV)
    ensures
        of_family(tool) <==> family_of(tool.get_str("type"@)) != ToolFamily::Custom,
{
}

proof fn lemma_offerable(tool: JsonV)
    ensures
        tool_refusal(tool) is None <==> offerable(tool),
{
    lemma_family(tool);
    let t = tool.get_str("type"@);
    assert(t == Some("mcp_toolset"@) || t == Some("mcp"@) ==> !(t == Some("custom"@)) && !of_family(
        tool,
    )) by {
        reveal_strlit("mcp_toolset");
        reveal_strlit("mcp");
        reveal_strlit("custom");
        reveal_strlit("bash_");
        reveal_strlit("text_editor_");
        reveal_strlit("memory_");
        reveal_strlit("computer_");
        reveal_strlit("web_search_");
        reveal_strlit("web_fetch_");
        assert("mcp"@.len() == 3 && "custom"@.len() == 6 && "mcp_toolset"@.len() == 11);
        assert("mcp_toolset"@[0] == 'm' && "mcp_toolset"@[1] == 'c');
        assert("mcp"@[0] == 'm' && "mcp"@[1] == 'c');
        assert("bash_"@[0] == 'b' && "text_editor_"@[0] == 't' && "memory_"@[1] == 'e');
        assert("computer_"@[0] == 'c' && "web_search_"@[0] == 'w' && "web_fetch_"@[0] == 'w');
    }
    match tool.get("allowed_callers"@) {
        Some(JsonV::Array(items)) => {
            if items.contains(JsonV::Str("direct"@)) {
                let i = items.index_of(JsonV::Str("direct"@));
                assert(items[i].as_str() == Some("direct"@));
            }
            if exists|i: int| 0 <= i < items.len() && #[trigger] items[i].as_str() == Some("direct"@) {
                let i = choose|i: int|
                    0 <= i < items.len() && #[trigger] items[i].as_str() == Some("direct"@);
                assert(items[i] == JsonV::Str("direct"@));
            }
        },
        _ => {},
    }
}

/// The tools that are offered: those with a name, and those of a family.
pub open spec fn offers(raw: Seq<JsonV>) -> Seq<JsonV>
    decreases raw.len(),
{
    if raw.len() == 0 {
        Seq::empty()
    } else if raw.last() is Object && (raw.last().get_str("name"@) is Some || of_family(
        raw.last(),
    )) {
        offers(raw.drop_last()).push(raw.last())
    } else {
        offers(raw.drop_last())
    }
}

/// Whether a chat tool is the offer of a tool: a function under its own name
/// or its family's, with its own description and schema where it has them.
pub open spec fn offers_tool(offer: JsonV, tool: JsonV) -> bool {
    let family = family_of(tool.get_str("type"@));
    let function = offer.get("function"@);
    &&& offer.get_str("type"@) == Some("function"@)
    &&& function is Some
    &&& function->0.get_str("name"@) == match tool.get_str("name"@) {
        Some(name) => Some(name),
        None => Some(default_name(family)),
    }
    &&& tool.get("description"@) is Some ==> function->0.get("description"@) == tool.get(
        "description"@,
    )
    &&& tool.get("description"@) is None ==> function->0.get("description"@)
        == match default_description(family) {
        Some(d) => Some(JsonV::Str(d)),
        None => Some(JsonV::Null),
    }
    &&& tool.get("input_schema"@) is Some ==> function->0.get("parameters"@) == tool.get(
        "input_schema"@,
    )
    &&& tool.get("input_schema"@) is None && family_schema(family, tool.get_str("type"@)) is Some
        ==> function->0.get("parameters"@) == family_schema(family, tool.get_str("type"@))
}

/// The last tool of the given kind with the search's settings, or the ones
/// before.
pub open spec fn last_search(raw: Seq<JsonV>) -> Option<JsonV>
    decreases raw.len(),
{
    if raw.len() == 0 {
        None
    } else if raw.last() is Object && family_of(raw.last().get_str("type"@))
        == ToolFamily::WebSearch {
        Some(raw.last())
    } else {
        last_search(raw.drop_last())
    }
}

proof fn lemma_offer(t: ToolsV, tool: JsonV)
    requires
        tool is Object,
        tools_step(t, tool) is Ok,
        tool.get_str("name"@) is Some || of_family(tool),
    ensures
        ({
            let next = tools_step(t, tool)->Ok_0;
            &&& next.tools.len() == t.tools.len() + 1
            &&& t.tools.is_prefix_of(next.tools)
            &&& offers_tool(next.tools.last(), tool)
            &&& next.meta.len() == t.meta.len() + 1
            &&& t.meta.is_prefix_of(next.meta)
            &&& next.meta.last().family == family_of(tool.get_str("type"@))
            &&& Some(next.meta.last().name) == next.tools.last().get("function"@)->0.get_str(
                "name"@,
            )
        }),
{
    lemma_family(tool);
    reveal_strlit("type");
    reveal_strlit("function");
    reveal_strlit("name");
    reveal_strlit("description");
    reveal_strlit("parameters");
    assert("type"@.len() == 4 && "function"@.len() == 8 && "name"@.len() == 4);
    assert("description"@.len() == 11 && "parameters"@.len() == 10);
}

/// Tools are offered as they are given, in order, and each with its
/// metadata; they are taken exactly when every one of them can be offered;
/// and the search's settings are those of the last search tool.
pub proof fn law_tools_are_offered_as_given(raw: Seq<JsonV>)
    ensures
        tools_of(raw) is Ok <==> forall|i: int|
            0 <= i < raw.len() && #[trigger] raw[i] is Object ==> offerable(raw[i]),
        tools_of(raw) is Ok ==> ({
            let t = tools_of(raw)->Ok_0;
            &&& t.tools.len() == offers(raw).len()
            &&& t.meta.len() == offers(raw).len()
            &&& forall|k: int|
                0 <= k < offers(raw).len() ==> offers_tool(#[trigger] t.tools[k], offers(raw)[k])
            &&& forall|k: int|
                0 <= k < offers(raw).len() ==> (#[trigger] t.meta[k]).family == family_of(
                    offers(raw)[k].get_str("type"@),
                ) && Some(t.meta[k].name) == t.tools[k].get("function"@)->0.get_str("name"@)
            &&& match last_search(raw) {
                None => t.web_search is None,
                Some(tool) => {
                    &&& t.web_search is Some
                    &&& t.web_search->0.name == match tool.get_str("name"@) {
                        Some(name) => name,
                        None => default_name(ToolFamily::WebSearch),
                    }
                    &&& t.web_search->0.max_uses == match tool.get_u64("max_uses"@) {
                        Some(n) => if n == 0 || n > u32::MAX {
                            None
                        } else {
                            Some(n as u32)
                        },
                        None => None,
                    }
                    &&& t.web_search->0.user_location == match tool.get("user_location"@) {
                        Some(JsonV::Object(m)) => Some(JsonV::Object(m)),
                        _ => None,
                    }
                },
            }
        }),
    decreases raw.len(),
{
    if raw.len() > 0 {
        let head = raw.drop_last();
        let tool = raw.last();
        law_tools_are_offered_as_given(head);
        lemma_offerable(tool);
        lemma_family(tool);
        let n = raw.len() - 1;
        assert(raw[n] == tool);
        assert forall|i: int| 0 <= i < n implies head[i] == #[trigger] raw[i] by {}
        if tools_of(head) is Ok {
            assert forall|i: int| 0 <= i < n && #[trigger] raw[i] is Object implies offerable(
                raw[i],
            ) by {
                assert(head[i] is Object);
            }
        } else {
            let i = choose|i: int|
                0 <= i < head.len() && #[trigger] head[i] is Object && !offerable(head[i]);
            assert(raw[i] is Object && !offerable(raw[i]));
        }
        if tools_of(raw) is Ok {
            let before = tools_of(head)->Ok_0;
            let t = tools_of(raw)->Ok_0;
            if tool is Object && (tool.get_str("name"@) is Some || of_family(tool)) {
                lemma_offer(before, tool);
                assert(offers(raw) == offers(head).push(tool));
                assert forall|k: int| 0 <= k < offers(raw).len() implies offers_tool(
                    #[trigger] t.tools[k],
                    offers(raw)[k],
                ) by {
                    if k < offers(head).len() {
                        assert(t.tools[k] == before.tools[k]);
                    }
                }
                assert forall|k: int| 0 <= k < offers(raw).len() implies (
                #[trigger] t.meta[k]).family == family_of(offers(raw)[k].get_str("type"@)) && Some(
                    t.meta[k].name,
                ) == t.tools[k].get("function"@)->0.get_str("name"@) by {
                    if k < offers(head).len() {
                        assert(t.meta[k] == before.meta[k]);
                        assert(t.tools[k] == before.tools[k]);
                    }
                }
            }
        }
    }
}

/// Whether thinking is asked for: switched on, or enabled. None where that
/// cannot be read.
pub open spec fn wants_thinking(v: JsonV) -> Option<bool> {
    match v {
        JsonV::Bool(b) => Some(b),
        JsonV::Object(_) => match v.get_str("type"@) {
            Some(t) => if t == "enabled"@ || t == "enable"@ || t == "on"@ || t == "true"@ {
                Some(true)
            } else if t == "disabled"@ || t == "disable"@ || t == "off"@ || t == "false"@ {
                Some(false)
            } else {
                None
            },
            None => Some(v.get("enabled"@) == Some(JsonV::Bool(true))),
        },
        _ => None,
    }
}

/// The tokens that thinking may take, under either name.
pub open spec fn budgeted(v: JsonV) -> Option<u64> {
    match v.get("budget_tokens"@) {
        Some(_) => v.get_u64("budget_tokens"@),
        None => v.get_u64("budgetTokens"@),
    }
}

/// Whether the beta header asks for interleaved thinking.
pub open spec fn asks_interleaved(beta: Seq<char>) -> bool {
    exists|i: int|
        0 <= i < split_on(beta, ',').len() && trimmed(#[trigger] split_on(beta, ',')[i])
            == "interleaved-thinking-2025-05-14"@
}

/// Whether the last message is an assistant's with content of any kind but
/// redacted thinking.
pub open spec fn prefilled(messages: Option<JsonV>) -> bool {
    match messages {
        Some(JsonV::Array(items)) => items.len() > 0 && items.last().get_str("role"@) == Some(
            "assistant"@,
        ) && (match items.last().get("content"@) {
            Some(JsonV::Str(s)) => s.len() > 0,
            content => exists|i: int|
                0 <= i < parts(content).len() && (#[trigger] parts(content)[i]).get_str("type"@)
                    != Some("redacted_thinking"@),
        }),
        _ => false,
    }
}

proof fn lemma_prefilled(messages: Option<JsonV>)
    ensures
        prefilled(messages) <==> crate::bridge::thinking::ends_in_prefill(messages),
{
    match messages {
        Some(JsonV::Array(items)) => {
            if items.len() > 0 {
                let content = items.last().get("content"@);
                lemma_parts(content);
                assert(prefilled(messages) == is_prefill(items.last())) by {
                    let b = parts(content);
                    if exists|i: int| 0 <= i < b.len() && (#[trigger] b[i]).get_str("type"@) != Some(
                        "redacted_thinking"@,
                    ) {
                        let i = choose|i: int|
                            0 <= i < b.len() && (#[trigger] b[i]).get_str("type"@) != Some(
                                "redacted_thinking"@,
                            );
                        assert(!type_is(blocks_of(content)[i], "redacted_thinking"@));
                    }
                    if exists|i: int|
                        0 <= i < b.len() && !type_is(
                            #[trigger] blocks_of(content)[i],
                            "redacted_thinking"@,
                        ) {
                        let i = choose|i: int|
                            0 <= i < b.len() && !type_is(
                                #[trigger] blocks_of(content)[i],
                                "redacted_thinking"@,
                            );
                        assert(b[i].get_str("type"@) != Some("redacted_thinking"@));
                    }
                }
            }
        },
        _ => {},
    }
}

/// Whether thinking may go with the rest of a request: its budget is a
/// number, at least the floor, and below the tokens of the answer unless
/// interleaved; nothing else sets the temperature, narrows the choice of
/// words, forces a tool or prefills the answer.
pub open spec fn thinkable(
    budget: Option<u64>,
    max_tokens: Option<JsonV>,
    temperature: Option<JsonV>,
    top_p: Option<JsonV>,
    forced_tool: bool,
    messages: Option<JsonV>,
    interleaved: bool,
) -> bool {
    &&& budget is Some && budget->0 >= 1024
    &&& interleaved || max_tokens is None || max_tokens->0.as_u64() is None || budget->0
        < max_tokens->0.as_u64()->0
    &&& temperature is None
    &&& match top_p {
        Some(JsonV::Int(i)) => i == 1,
        Some(JsonV::Float(bits)) => 0x3FEE_6666_6666_6666 <= bits <= 0x3FF0_0000_0000_0000,
        _ => true,
    }
    &&& !forced_tool
    &&& !prefilled(messages)
}

/// Thinking is what the request asks for: off where it is not asked for or
/// switched off, on with the budget given where it is switched on and may go
/// with the rest, and refused where it may not or cannot be read.
pub proof fn law_thinking_is_what_is_asked_for(
    v: Option<JsonV>,
    max_tokens: Option<JsonV>,
    temperature: Option<JsonV>,
    top_p: Option<JsonV>,
    forced_tool: bool,
    tools: Option<JsonV>,
    messages: Option<JsonV>,
    beta: Seq<char>,
)
    ensures
        ({
            let r = thinking_of(
                v,
                max_tokens,
                temperature,
                top_p,
                forced_tool,
                tools,
                messages,
                beta,
            );
            let interleaved = asks_interleaved(beta) && tools is Some && (tools->0 matches JsonV::Array(
                items,
            ) && items.len() > 0);
            match v {
                None => r is Ok && !r->Ok_0.enabled && r->Ok_0.budget_tokens is None
                    && r->Ok_0.interleaved == interleaved,
                Some(v) => match wants_thinking(v) {
                    None => r is Err,
                    Some(false) => r is Ok && !r->Ok_0.enabled && r->Ok_0.budget_tokens is None
                        && !r->Ok_0.interleaved,
                    Some(true) => {
                        &&& r is Ok <==> thinkable(
                            budgeted(v),
                            max_tokens,
                            temperature,
                            top_p,
                            forced_tool,
                            messages,
                            interleaved,
                        )
                        &&& r is Ok ==> r->Ok_0.enabled && r->Ok_0.budget_tokens == budgeted(v)
                            && r->Ok_0.interleaved == interleaved
                    },
                },
            }
        }),
{
    lemma_prefilled(messages);
    assert(lists_beta(beta) == asks_interleaved(beta));
}

/// A request is taken exactly when it names a model, brings no MCP servers,
/// offers only tools that can be offered, names the tool it chooses, and
/// asks for thinking that may be had.
pub proof fn law_which_requests_are_taken(body: JsonV, beta: Seq<char>)
    ensures
        payload_of(body, beta) is Ok <==> {
            &&& body.get_str("model"@) is Some
            &&& given(body, "mcp_servers"@) is None
            &&& forall|i: int|
                0 <= i < body.list("tools"@).len() && #[trigger] body.list("tools"@)[i] is Object
                    ==> offerable(body.list("tools"@)[i])
            &&& choice_of(body.get("tool_choice"@)) is Ok
            &&& thinking_of(
                body.get("thinking"@),
                body.get("max_tokens"@),
                body.get("temperature"@),
                body.get("top_p"@),
                choice_of(body.get("tool_choice"@))->Ok_0.1,
                body.get("tools"@),
                body.get("messages"@),
                beta,
            ) is Ok
        },
        payload_of(body, beta) is Ok ==> ({
            let p = payload_of(body, beta)->Ok_0;
            &&& p.tools == tools_of(body.list("tools"@))->Ok_0.tools
            &&& p.tool_meta == tools_of(body.list("tools"@))->Ok_0.meta
            &&& p.web_search == tools_of(body.list("tools"@))->Ok_0.web_search
            &&& (p.tool_choice, p.forced_tool) == choice_of(body.get("tool_choice"@))->Ok_0
            &&& p.thinking == thinking_of(
                body.get("thinking"@),
                body.get("max_tokens"@),
                body.get("temperature"@),
                body.get("top_p"@),
                p.forced_tool,
                body.get("tools"@),
                body.get("messages"@),
                beta,
            )->Ok_0
        }),
{
    law_tools_are_offered_as_given(body.list("tools"@));
}

/// A tool belongs to the family that its type starts with, and to the
/// caller's own tools where it starts with none of them.
pub proof fn law_tool_families(tool: JsonV)
    ensures
        ({
            let family = family_of(tool.get_str("type"@));
            &&& family == ToolFamily::Bash <==> of_kind(tool, "bash_"@)
            &&& family == ToolFamily::TextEditor <==> of_kind(tool, "text_editor_"@)
            &&& family == ToolFamily::Memory <==> of_kind(tool, "memory_"@)
            &&& family == ToolFamily::Computer <==> of_kind(tool, "computer_"@)
            &&& family == ToolFamily::WebSearch <==> of_kind(tool, "web_search_"@)
            &&& family == ToolFamily::WebFetch <==> of_kind(tool, "web_fetch_"@)
        }),
{
    reveal_strlit("bash_");
    reveal_strlit("text_editor_");
    reveal_strlit("memory_");
    reveal_strlit("computer_");
    reveal_strlit("web_search_");
    reveal_strlit("web_fetch_");
    match tool.get_str("type"@) {
        Some(t) => {
            assert("bash_"@.is_prefix_of(t) ==> t[0] == 'b') by {
                assert("bash_"@[0] == 'b');
            }
            assert("text_editor_"@.is_prefix_of(t) ==> t[0] == 't') by {
                assert("text_editor_"@[0] == 't');
            }
            assert("memory_"@.is_prefix_of(t) ==> t[0] == 'm') by {
                assert("memory_"@[0] == 'm');
            }
            assert("computer_"@.is_prefix_of(t) ==> t[0] == 'c') by {
                assert("computer_"@[0] == 'c');
            }
            assert("web_search_"@.is_prefix_of(t) ==> t[0] == 'w' && t[4] == 's') by {
                assert("web_search_"@[0] == 'w' && "web_search_"@[4] == 's');
            }
            assert("web_fetch_"@.is_prefix_of(t) ==> t[0] == 'w' && t[4] == 'f') by {
                assert("web_fetch_"@[0] == 'w' && "web_fetch_"@[4] == 'f');
            }
        },
        None => {},
    }
}

/// A family's own schema is that of an object; the search asks for its
/// query, the shell for a command, the editor and the memory for a command
/// and a path, the computer for an action.
pub proof fn law_family_schemas(family: ToolFamily, t: Option<Seq<char>>)
    ensures
        family_schema(family, t) is None <==> family == ToolFamily::WebFetch || family
            == ToolFamily::Custom,
        family_schema(family, t) is Some ==> family_schema(family, t)->0.get_str("type"@) == Some(
            "object"@,
        ) && family_schema(family, t)->0.get("properties"@) is Some,
        family == ToolFamily::WebSearch ==> family_schema(family, t)->0.list("required"@) == seq![
            JsonV::Str("query"@),
        ] && family_schema(family, t)->0.get("properties"@)->0.get("query"@) is Some,
        family == ToolFamily::Bash ==> family_schema(family, t)->0.get("properties"@)->0.get(
            "command"@,
        ) is Some && family_schema(family, t)->0.get("properties"@)->0.get("restart"@) is Some,
        family == ToolFamily::TextEditor || family == ToolFamily::Memory ==> family_schema(
            family,
            t,
        )->0.get("properties"@)->0.get("command"@) is Some && family_schema(family, t)->0.get(
            "properties"@,
        )->0.get("path"@) is Some,
        family == ToolFamily::Computer ==> family_schema(family, t)->0.get("properties"@)->0.get(
            "action"@,
        ) is Some && family_schema(family, t)->0.get("properties"@)->0.get("coordinate"@) is Some,
{
    reveal_strlit("type");
    reveal_strlit("properties");
    reveal_strlit("required");
    assert("type"@.len() == 4 && "properties"@.len() == 10 && "required"@.len() == 8);
}

/// What an editor and a computer can be told: older editors undo, and only
/// the newest computer zooms; the rest is common.
pub proof fn law_versions_of_tools(t: Seq<char>)
    ensures
        editor_commands(Some(t)).contains(JsonV::Str("undo_edit"@)) <==> "20241022"@.is_suffix_of(
            t,
        ) || "20250124"@.is_suffix_of(t),
        editor_commands(Some(t)).contains(JsonV::Str("view"@)),
        editor_commands(Some(t)).contains(JsonV::Str("create"@)),
        editor_commands(Some(t)).contains(JsonV::Str("str_replace"@)),
        editor_commands(Some(t)).contains(JsonV::Str("insert"@)),
        "20251124"@.is_suffix_of(t) ==> computer_actions(Some(t)).contains(JsonV::Str("zoom"@)),
        !"20251124"@.is_suffix_of(t) ==> computer_actions(Some(t)) == computer_actions(None),
        computer_actions(Some(t)).contains(JsonV::Str("screenshot"@)),
        computer_actions(Some(t)).contains(JsonV::Str("left_click"@)),
        computer_actions(Some(t)).contains(JsonV::Str("type"@)),
{
    reveal_strlit("view");
    reveal_strlit("create");
    reveal_strlit("str_replace");
    reveal_strlit("insert");
    reveal_strlit("undo_edit");
    assert("view"@.len() == 4 && "create"@.len() == 6 && "str_replace"@.len() == 11);
    assert("insert"@.len() == 6 && "undo_edit"@.len() == 9);
    let e = editor_commands(Some(t));
    assert(e[0] == JsonV::Str("view"@) && e[1] == JsonV::Str("create"@));
    assert(e[2] == JsonV::Str("str_replace"@) && e[3] == JsonV::Str("insert"@));
    if e.len() > 4 {
        assert(e[4] == JsonV::Str("undo_edit"@));
    }
    let c = computer_actions(Some(t));
    assert(c[0] == JsonV::Str("screenshot"@) && c[1] == JsonV::Str("left_click"@));
    assert(c[11] == JsonV::Str("type"@));
    if c.len() > 15 {
        assert(c[15] == JsonV::Str("zoom"@));
    }
}

/// A tool of a family goes under the family's name where it has none of its
/// own, and no two families share one.
pub proof fn law_family_names(a: ToolFamily, b: ToolFamily)
    ensures
        default_name(a) == default_name(b) ==> a == b,
        default_name(ToolFamily::Bash) == "bash"@,
        default_name(ToolFamily::TextEditor) == "str_replace_based_edit_tool"@,
        default_name(ToolFamily::Memory) == "memory"@,
        default_name(ToolFamily::Computer) == "computer"@,
        default_name(ToolFamily::WebSearch) == "web_search"@,
        default_name(ToolFamily::WebFetch) == "web_fetch"@,
{
    reveal_strlit("bash");
    reveal_strlit("str_replace_based_edit_tool");
    reveal_strlit("memory");
    reveal_strlit("computer");
    reveal_strlit("web_search");
    reveal_strlit("web_fetch");
    reveal_strlit("tool");
    assert("bash"@.len() == 4 && "tool"@.len() == 4 && "bash"@[0] == 'b' && "tool"@[0] == 't');
    assert("str_replace_based_edit_tool"@.len() == 27 && "memory"@.len() == 6);
    assert("computer"@.len() == 8 && "web_search"@.len() == 10 && "web_fetch"@.len() == 9);
}

proof fn lemma_tool_errors(raw: Seq<JsonV>)
    ensures
        tools_of(raw) is Err ==> tools_of(raw)->Err_0.code == "server_tools_unsupported"@,
    decreases raw.len(),
{
    if raw.len() > 0 {
        lemma_tool_errors(raw.drop_last());
    }
}

/// A request that is not taken is told the first thing that is wrong with
/// it: the model it does not name, the server's tools it brings, the tool it
/// chooses without a name, or the thinking that cannot be had.
pub proof fn law_refused_requests_are_told_the_first_fault(body: JsonV, beta: Seq<char>)
    ensures
        ({
            let r = payload_of(body, beta);
            let tools_taken = forall|i: int|
                0 <= i < body.list("tools"@).len() && #[trigger] body.list("tools"@)[i] is Object
                    ==> offerable(body.list("tools"@)[i]);
            &&& body.get_str("model"@) is None ==> r is Err && r->Err_0.code == "missing_model"@
            &&& body.get_str("model"@) is Some && (given(body, "mcp_servers"@) is Some
                || !tools_taken) ==> r is Err && r->Err_0.code == "server_tools_unsupported"@
            &&& body.get_str("model"@) is Some && given(body, "mcp_servers"@) is None
                && tools_taken && choice_of(body.get("tool_choice"@)) is Err ==> r is Err
                && r->Err_0.code == "invalid_tool_choice"@
            &&& body.get_str("model"@) is Some && given(body, "mcp_servers"@) is None
                && tools_taken && choice_of(body.get("tool_choice"@)) is Ok && r is Err
                ==> r->Err_0.code == "invalid_thinking"@
        }),
{
    lemma_tool_errors(body.list("tools"@));
    law_tools_are_offered_as_given(body.list("tools"@));
}

}
