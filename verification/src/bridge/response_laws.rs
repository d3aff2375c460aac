//! What becomes of a completion: its reasoning, text and calls are the
//! message's content, in that order, with its reason and its counts.
use crate::bridge::request::ToolMetaV;
use crate::bridge::response::{
    call_block, call_blocks, choice_message, content_of, first_choice, message_of_completion,
    text_blocks, thinking_blocks,
};
use crate::bridge::search::WebSearchMetaV;
use crate::bridge::tools::ToolFamily;
use crate::codec::json_of_text;
use crate::digest::{base64_text, sha256_of};
use crate::json::JsonV;
use crate::text::{decimal, trimmed};
use vstd::prelude::*;
use vstd::utf8::encode_utf8;

verus! {

/// The members of messages and their blocks, told apart.
proof fn lemma_message_keys()
    ensures
        "type"@ != "thinking"@,
        "type"@ != "signature"@,
        "type"@ != "text"@,
        "type"@ != "id"@,
        "type"@ != "name"@,
        "type"@ != "input"@,
        "type"@ != "caller"@,
        "thinking"@ != "signature"@,
        "id"@ != "name"@,
        "id"@ != "input"@,
        "id"@ != "caller"@,
        "name"@ != "input"@,
        "name"@ != "caller"@,
        "input"@ != "caller"@,
{
    reveal_strlit("type");
    reveal_strlit("thinking");
    reveal_strlit("signature");
    reveal_strlit("text");
    reveal_strlit("id");
    reveal_strlit("name");
    reveal_strlit("input");
    reveal_strlit("caller");
    assert("type"@[1] == 'y' && "text"@[1] == 'e' && "name"@[0] == 'n' && "type"@[0] == 't');
    assert("type"@.len() == 4 && "thinking"@.len() == 8 && "signature"@.len() == 9);
    assert("id"@.len() == 2 && "name"@.len() == 4 && "input"@.len() == 5);
    assert("caller"@.len() == 6);
}

/// The reasoning of a message that is not blank, trimmed.
pub open spec fn reasoned(said: JsonV) -> Option<Seq<char>> {
    match said.get_str("reasoning_content"@) {
        Some(t) => if trimmed(t).len() > 0 {
            Some(trimmed(t))
        } else {
            None
        },
        None => None,
    }
}

/// The text of a message that is not empty.
pub open spec fn answered(said: JsonV) -> Option<Seq<char>> {
    match said.get_str("content"@) {
        Some(t) => if t.len() > 0 {
            Some(t)
        } else {
            None
        },
        None => None,
    }
}

/// Where text starts in the content: after the reasoning, where there is
/// any.
pub open spec fn text_at(said: JsonV) -> int {
    if reasoned(said) is Some {
        1
    } else {
        0
    }
}

/// Where calls start in the content: after the text, where there is any.
pub open spec fn calls_at(said: JsonV) -> int {
    if answered(said) is Some {
        text_at(said) + 1
    } else {
        text_at(said)
    }
}

/// The name of the function that a call is of.
pub open spec fn name_of(call: JsonV) -> Seq<char> {
    match call.get("function"@) {
        Some(function) => match function.get_str("name"@) {
            Some(name) => name,
            None => Seq::empty(),
        },
        None => Seq::empty(),
    }
}

/// Whether a block passes the `i`th call on: under its id, or one made of
/// its place; under its name; and with its arguments as JSON, the text
/// itself where it is no JSON, and no input where there are none.
pub open spec fn passes_on(block: JsonV, call: JsonV, i: int) -> bool {
    &&& block.get_str("id"@) == match call.get_str("id"@) {
        Some(id) => if id.len() > 0 {
            Some(id)
        } else {
            Some("toolu_bridge_call_"@ + decimal(i as nat))
        },
        None => Some("toolu_bridge_call_"@ + decimal(i as nat)),
    }
    &&& block.get_str("name"@) == Some(name_of(call))
    &&& block.get("input"@) == match call.get("function"@) {
        Some(function) => match function.get("arguments"@) {
            None => Some(JsonV::Object(Map::empty())),
            Some(JsonV::Null) => Some(JsonV::Object(Map::empty())),
            Some(JsonV::Str(raw)) => match json_of_text(raw) {
                Some(v) => Some(v),
                None => Some(JsonV::Str(raw)),
            },
            Some(other) => Some(other),
        },
        None => Some(JsonV::Object(Map::empty())),
    }
}

/// Whether the caller is to run tools of this name: one was offered that
/// the gateway does not run itself.
pub open spec fn callers_own(name: Seq<char>, tools: Seq<ToolMetaV>) -> bool {
    exists|k: int|
        0 <= k < tools.len() && (#[trigger] tools[k]).name == name && !(tools[k].family
            == ToolFamily::WebSearch || tools[k].family == ToolFamily::WebFetch)
}

proof fn lemma_passes_on(
    call: JsonV,
    i: int,
    tools: Seq<ToolMetaV>,
    web_search: Option<WebSearchMetaV>,
)
    ensures
        ({
            let block = call_block(call, i, tools, web_search);
            &&& passes_on(block, call, i)
            &&& block.get_str("type"@) == Some(
                if web_search is Some && web_search->0.name == name_of(call) {
                    "server_tool_use"@
                } else {
                    "tool_use"@
                },
            )
            &&& block.get("caller"@) is Some <==> callers_own(name_of(call), tools) && !(
            web_search is Some && web_search->0.name == name_of(call))
        }),
{
    lemma_message_keys();
}

/// A completion is kept whole: reasoning that is not blank is the first
/// block, trimmed, whatever else was said; text that is not empty is the
/// next, as it stands; and every tool call is a block after these, in order,
/// with its id, name and input. The content holds nothing else.
pub proof fn law_completions_are_carried_whole(
    completion: JsonV,
    model: Seq<char>,
    tools: Seq<ToolMetaV>,
    web_search: Option<WebSearchMetaV>,
    said: JsonV,
)
    requires
        completion.list("choices"@).len() > 0,
        completion.list("choices"@)[0].get("message"@) == Some(said),
    ensures
        ({
            let content = message_of_completion(completion, model, tools, web_search).list(
                "content"@,
            );
            let calls = said.list("tool_calls"@);
            &&& content.len() == calls_at(said) + calls.len()
            &&& reasoned(said) is Some ==> content[0].get_str("type"@) == Some("thinking"@)
                && content[0].get_str("thinking"@) == reasoned(said)
                && content[0].get_str("signature"@) == Some(
                "nimthinking_"@ + base64_text(
                    sha256_of(encode_utf8(model + "\n"@ + reasoned(said)->0)),
                ),
            )
            &&& answered(said) is Some ==> content[text_at(said)] == JsonV::Object(
                map![
                    "type"@ => JsonV::Str("text"@),
                    "text"@ => JsonV::Str(answered(said)->0),
                ],
            )
            &&& forall|i: int|
                0 <= i < calls.len() ==> passes_on(
                    content[calls_at(said) + i],
                    #[trigger] calls[i],
                    i,
                ) && content[calls_at(said) + i].get_str("type"@) == Some(
                    if web_search is Some && web_search->0.name == name_of(calls[i]) {
                        "server_tool_use"@
                    } else {
                        "tool_use"@
                    },
                ) && (content[calls_at(said) + i].get("caller"@) is Some <==> callers_own(
                    name_of(calls[i]),
                    tools,
                ) && !(web_search is Some && web_search->0.name == name_of(calls[i])))
        }),
{
    lemma_message_keys();
    law_message_members(completion, model, tools, web_search);
    assert(choice_message(completion) == said);
    let content = content_of(completion, model, tools, web_search);
    let calls = said.list("tool_calls"@);
    let th = thinking_blocks(said, model);
    let tx = text_blocks(said);
    let cs = call_blocks(calls, tools, web_search);
    assert(content =~= th + tx + cs);
    assert(th.len() == text_at(said));
    assert(th.len() + tx.len() == calls_at(said));
    if answered(said) is Some {
        assert(content[text_at(said)] == tx[0]);
        assert(tx[0]->Object_0 =~= map![
            "type"@ => JsonV::Str("text"@),
            "text"@ => JsonV::Str(answered(said)->0),
        ]);
    }
    assert forall|i: int| 0 <= i < calls.len() implies passes_on(
        content[calls_at(said) + i],
        #[trigger] calls[i],
        i,
    ) && content[calls_at(said) + i].get_str("type"@) == Some(
        if web_search is Some && web_search->0.name == name_of(calls[i]) {
            "server_tool_use"@
        } else {
            "tool_use"@
        },
    ) && (content[calls_at(said) + i].get("caller"@) is Some <==> callers_own(
        name_of(calls[i]),
        tools,
    ) && !(web_search is Some && web_search->0.name == name_of(calls[i]))) by {
        assert(content[calls_at(said) + i] == cs[i]);
        lemma_passes_on(calls[i], i, tools, web_search);
    }
}

/// A completion that says nothing has no content.
pub proof fn law_silent_completions_have_no_content(
    completion: JsonV,
    model: Seq<char>,
    tools: Seq<ToolMetaV>,
    web_search: Option<WebSearchMetaV>,
)
    requires
        completion.list("choices"@).len() == 0 || completion.list("choices"@)[0].get("message"@)
            is None,
    ensures
        message_of_completion(completion, model, tools, web_search).get("content"@) == Some(
            JsonV::Array(Seq::empty()),
        ),
{
    law_message_members(completion, model, tools, web_search);
    assert(choice_message(completion) == JsonV::Null);
    assert(content_of(completion, model, tools, web_search) =~= Seq::<JsonV>::empty());
}

/// A count of a completion's usage; zero where there is none.
pub open spec fn counted(completion: JsonV, key: Seq<char>) -> u64 {
    match completion.get("usage"@) {
        Some(usage) => match usage.get_u64(key) {
            Some(n) => n,
            None => 0,
        },
        None => 0,
    }
}

/// The reason for which a completion's first choice stopped: cut off at the
/// length, or for its tools, or at its end.
pub open spec fn stopped(completion: JsonV) -> Seq<char> {
    let choices = completion.list("choices"@);
    let finish = if choices.len() > 0 {
        choices[0].get_str("finish_reason"@)
    } else {
        None
    };
    let calls = if choices.len() > 0 && choices[0].get("message"@) is Some {
        choices[0].get("message"@)->0.list("tool_calls"@).len()
    } else {
        0
    };
    if finish == Some("length"@) {
        "max_tokens"@
    } else if calls > 0 || finish == Some("tool_calls"@) {
        "tool_use"@
    } else {
        "end_turn"@
    }
}

/// A message is the assistant's, under the requested model, with the
/// completion's id, its reason to stop and its token counts.
pub proof fn law_message_members(
    completion: JsonV,
    model: Seq<char>,
    tools: Seq<ToolMetaV>,
    web_search: Option<WebSearchMetaV>,
)
    ensures
        ({
            let m = message_of_completion(completion, model, tools, web_search);
            &&& m.get_str("id"@) == Some(
                "msg_"@ + match completion.get_str("id"@) {
                    Some(id) => id,
                    None => Seq::empty(),
                },
            )
            &&& m.get_str("type"@) == Some("message"@)
            &&& m.get_str("role"@) == Some("assistant"@)
            &&& m.get_str("model"@) == Some(model)
            &&& m.get("content"@) == Some(
                JsonV::Array(content_of(completion, model, tools, web_search)),
            )
            &&& m.get_str("stop_reason"@) == Some(stopped(completion))
            &&& m.get("stop_sequence"@) == Some(JsonV::Null)
            &&& m.get("usage"@) == Some(
                JsonV::Object(
                    map![
                        "input_tokens"@ => JsonV::Int(
                            counted(completion, "prompt_tokens"@) as int,
                        ),
                        "output_tokens"@ => JsonV::Int(
                            counted(completion, "completion_tokens"@) as int,
                        ),
                    ],
                ),
            )
        }),
{
    reveal_strlit("id");
    reveal_strlit("type");
    reveal_strlit("role");
    reveal_strlit("model");
    reveal_strlit("content");
    reveal_strlit("stop_reason");
    reveal_strlit("stop_sequence");
    reveal_strlit("usage");
    assert("id"@.len() == 2 && "type"@.len() == 4 && "role"@.len() == 4);
    assert("type"@[0] == 't' && "role"@[0] == 'r');
    assert("model"@.len() == 5 && "usage"@.len() == 5 && "model"@[0] == 'm' && "usage"@[0] == 'u');
    assert("content"@.len() == 7 && "stop_reason"@.len() == 11 && "stop_sequence"@.len() == 13);
    let m = message_of_completion(completion, model, tools, web_search);
    assert(m.get("usage"@) is Some);
    assert(m.get("usage"@)->0->Object_0 =~= map![
        "input_tokens"@ => JsonV::Int(counted(completion, "prompt_tokens"@) as int),
        "output_tokens"@ => JsonV::Int(counted(completion, "completion_tokens"@) as int),
    ]);
    assert(first_choice(completion) is Some <==> completion.list("choices"@).len() > 0);
    assert(JsonV::Null.list("tool_calls"@).len() == 0);
}

}
