//! Request-side transform: an Anthropic Messages body becomes an OpenAI
//! chat payload.
use crate::bridge::blocks::{
    block_text, blocks_of, call_of, content_blocks, has_type, is_result, is_tool_result, no_ids,
    result_id_of, result_text, system_prompt, system_text, text_of_block, tool_result_text,
    tool_use_to_call, type_is, use_id_of, IdState, IdStateV,
};
use crate::bridge::error::{bridge_error, BridgeError, BridgeErrorV};
use crate::bridge::search::{opt_search, WebSearchMeta, WebSearchMetaV};
use crate::bridge::thinking::{resolve_thinking, thinking_of, ThinkingMeta};
use crate::bridge::tools::{
    allows_direct, caller_error, check_allowed_callers, check_unknown_tool_type,
    client_tool_description, client_tool_parameters, default_description, default_name,
    family_default_name, family_of, family_schema, known_type, reject_server_tool,
    server_tool_error, tool_family, ToolFamily,
};
use crate::json::{
    empty_object, items_view, lemma_items_push, lemma_items_view, opt_json, opt_owned, Json, JsonV,
};
use crate::text::{
    concat3, is_empty, join, joined, opt_text, or_empty, owned_or_empty, same, texts, trim, trimmed,
};
use vstd::prelude::*;

verus! {

broadcast use vstd::string::group_string_axioms;

/// Tool metadata carried from the request transform into the response
/// transform and the tool-type metric.
#[derive(Debug, PartialEq)]
pub struct ToolMeta {
    /// Normalized name the tool offer reached the upstream under.
    pub name: String,
    pub family: ToolFamily,
}

/// The view of a [`ToolMeta`].
#[verifier::ext_equal]
pub struct ToolMetaV {
    pub name: Seq<char>,
    pub family: ToolFamily,
}

impl View for ToolMeta {
    type V = ToolMetaV;

    open spec fn view(&self) -> ToolMetaV {
        ToolMetaV { name: self.name@, family: self.family }
    }
}

impl Clone for ToolMeta {
    fn clone(&self) -> (r: Self)
        ensures
            r@ == self@,
    {
        ToolMeta { name: self.name.clone(), family: self.family }
    }
}

/// The views of a list of tool metadata.
pub open spec fn metas(v: Seq<ToolMeta>) -> Seq<ToolMetaV> {
    v.map_values(|m: ToolMeta| m@)
}

/// Result of the request transform.
#[derive(Debug)]
pub struct ChatPayload {
    /// The OpenAI chat-completions request body to send upstream.
    pub json: Json,
    /// Normalized OpenAI function tool definitions.
    pub tools: Vec<Json>,
    /// Family per entry of `tools`, in order.
    pub tool_meta: Vec<ToolMeta>,
    /// Mapped `tool_choice`, if present.
    pub tool_choice: Option<Json>,
    /// `true` when `tool_choice` forces a specific tool.
    pub forced_tool: bool,
    /// The validated thinking mode for the response transform.
    pub thinking: ThinkingMeta,
    /// Execution metadata for the offered `web_search` server tool:
    /// `None` when the request offers no web_search. Drives the
    /// in-gateway execute-then-resend loop and the `server_tool_use`
    /// response transform.
    pub web_search: Option<WebSearchMeta>,
}

/// The view of a [`ChatPayload`].
#[verifier::ext_equal]
pub struct ChatPayloadV {
    pub json: JsonV,
    pub tools: Seq<JsonV>,
    pub tool_meta: Seq<ToolMetaV>,
    pub tool_choice: Option<JsonV>,
    pub forced_tool: bool,
    pub thinking: ThinkingMeta,
    pub web_search: Option<WebSearchMetaV>,
}

impl View for ChatPayload {
    type V = ChatPayloadV;

    open spec fn view(&self) -> ChatPayloadV {
        ChatPayloadV {
            json: self.json@,
            tools: items_view(self.tools@),
            tool_meta: metas(self.tool_meta@),
            tool_choice: opt_owned(self.tool_choice),
            forced_tool: self.forced_tool,
            thinking: self.thinking,
            web_search: opt_search(self.web_search),
        }
    }
}

/// One more chunk of text, on a line of its own unless it is the first.
pub open spec fn merged_with(text: Seq<char>, chunk: Seq<char>) -> Seq<char> {
    if text.len() == 0 {
        chunk
    } else {
        text + "\n"@ + chunk
    }
}

/// Chunks of text merged into one.
pub open spec fn merged(chunks: Seq<Seq<char>>) -> Seq<char>
    decreases chunks.len(),
{
    if chunks.len() == 0 {
        Seq::empty()
    } else {
        merged_with(merged(chunks.drop_last()), chunks.last())
    }
}

/// A thinking text, tagged so that the upstream model can tell it from its
/// own prior output.
pub open spec fn tagged(t: Seq<char>) -> Seq<char> {
    "<thinking>"@ + t + "</thinking>"@
}

/// What an assistant turn is made of: the plain texts, the thinking texts,
/// the tool calls, and the ids after them.
#[verifier::ext_equal]
pub struct TurnV {
    pub text: Seq<Seq<char>>,
    pub thinking: Seq<Seq<char>>,
    pub calls: Seq<JsonV>,
    pub ids: IdStateV,
}

pub open spec fn empty_turn(ids: IdStateV) -> TurnV {
    TurnV { text: Seq::empty(), thinking: Seq::empty(), calls: Seq::empty(), ids }
}

/// Whether a block is a tool call.
pub open spec fn is_call(block: JsonV) -> bool {
    type_is(block, "tool_use"@) || type_is(block, "server_tool_use"@)
}

/// The turn with one more tool call.
pub open spec fn turn_call(turn: TurnV, block: JsonV) -> TurnV {
    TurnV {
        calls: turn.calls.push(call_of(block, use_id_of(turn.ids, block).0)),
        ids: use_id_of(turn.ids, block).1,
        ..turn
    }
}

/// The turn with the thinking of a block, blank thinking aside.
pub open spec fn turn_thinking(turn: TurnV, block: JsonV) -> TurnV {
    let t = trimmed(or_empty(block.get_str("thinking"@)));
    if t.len() > 0 {
        TurnV { thinking: turn.thinking.push(t), ..turn }
    } else {
        turn
    }
}

/// The turn with one more block of an assistant message.
pub open spec fn turn_step(turn: TurnV, block: JsonV) -> TurnV {
    if is_call(block) {
        turn_call(turn, block)
    } else if type_is(block, "thinking"@) {
        turn_thinking(turn, block)
    } else if type_is(block, "redacted_thinking"@) {
        turn
    } else {
        match text_of_block(block) {
            Some(t) => TurnV { text: turn.text.push(t), ..turn },
            None => turn,
        }
    }
}

/// The turn an assistant message's blocks make.
pub open spec fn assistant_turn(blocks: Seq<JsonV>, ids: IdStateV) -> TurnV
    decreases blocks.len(),
{
    if blocks.len() == 0 {
        empty_turn(ids)
    } else {
        turn_step(assistant_turn(blocks.drop_last(), ids), blocks.last())
    }
}

/// The merged text of a turn: tagged thinking first, then the texts.
pub open spec fn turn_text(turn: TurnV) -> Seq<char> {
    merged(turn.thinking.map_values(|t: Seq<char>| tagged(t)) + turn.text)
}

/// A chat message with a role and a text.
pub open spec fn chat_message(role: Seq<char>, content: Seq<char>) -> JsonV {
    empty_object().with("role"@, JsonV::Str(role)).with("content"@, JsonV::Str(content))
}

/// The chat message of an assistant turn; none where it holds nothing.
pub open spec fn assistant_message(turn: TurnV) -> Option<JsonV> {
    let text = turn_text(turn);
    if text.len() == 0 && turn.calls.len() == 0 {
        None
    } else {
        let content = if text.len() == 0 {
            JsonV::Null
        } else {
            JsonV::Str(text)
        };
        let message = empty_object().with("role"@, JsonV::Str("assistant"@)).with(
            "content"@,
            content,
        );
        if turn.calls.len() == 0 {
            Some(message)
        } else {
            Some(message.with("tool_calls"@, JsonV::Array(turn.calls)))
        }
    }
}

/// A conversation so far: its chat messages, and the ids given in it.
#[verifier::ext_equal]
pub struct ConversationV {
    pub messages: Seq<JsonV>,
    pub ids: IdStateV,
}

/// The messages with the pending text, if there is any, as one more.
pub open spec fn flushed(messages: Seq<JsonV>, pending: Seq<Seq<char>>, role: Seq<char>) -> Seq<
    JsonV,
> {
    let text = joined(pending, "\n"@);
    if text.len() > 0 {
        messages.push(chat_message(role, text))
    } else {
        messages
    }
}

/// The chat message of a tool result.
pub open spec fn tool_message(id: Seq<char>, result: Seq<char>) -> JsonV {
    empty_object().with("role"@, JsonV::Str("tool"@)).with("tool_call_id"@, JsonV::Str(id)).with(
        "content"@,
        JsonV::Str(
            if result.len() == 0 {
                "(no output)"@
            } else {
                result
            },
        ),
    )
}

/// A conversation and the text of the message at hand that is not in it
/// yet.
#[verifier::ext_equal]
pub struct PartialV {
    pub messages: Seq<JsonV>,
    pub pending: Seq<Seq<char>>,
    pub ids: IdStateV,
}

/// The conversation with one more block of a user-side message.
pub open spec fn user_step(p: PartialV, block: JsonV, role: Seq<char>) -> PartialV {
    if is_result(block) {
        PartialV {
            messages: flushed(p.messages, p.pending, role).push(
                tool_message(result_id_of(p.ids, block).0, result_text(block)),
            ),
            pending: Seq::empty(),
            ids: result_id_of(p.ids, block).1,
        }
    } else {
        match text_of_block(block) {
            Some(t) => PartialV { pending: p.pending.push(t), ..p },
            None => p,
        }
    }
}

/// The conversation with the blocks of a user-side message, its last text
/// still pending.
pub open spec fn user_blocks(c: ConversationV, blocks: Seq<JsonV>, role: Seq<char>) -> PartialV
    decreases blocks.len(),
{
    if blocks.len() == 0 {
        PartialV { messages: c.messages, pending: Seq::empty(), ids: c.ids }
    } else {
        user_step(user_blocks(c, blocks.drop_last(), role), blocks.last(), role)
    }
}

/// The role a user-side message reaches the upstream under.
pub open spec fn target_role(role: Seq<char>) -> Seq<char> {
    if role == "developer"@ || role == "system"@ {
        "system"@
    } else {
        "user"@
    }
}

/// The role of a message; one that names none is the user's.
pub open spec fn role_of(message: JsonV) -> Seq<char> {
    match message.get_str("role"@) {
        Some(role) => role,
        None => "user"@,
    }
}

/// The conversation with one more message.
pub open spec fn conversation_step(c: ConversationV, raw: JsonV) -> ConversationV {
    match raw {
        JsonV::Str(text) => ConversationV {
            messages: c.messages.push(chat_message("user"@, text)),
            ids: c.ids,
        },
        JsonV::Object(_) => {
            let blocks = blocks_of(raw.get("content"@));
            if role_of(raw) == "assistant"@ {
                let turn = assistant_turn(blocks, c.ids);
                ConversationV {
                    messages: match assistant_message(turn) {
                        Some(m) => c.messages.push(m),
                        None => c.messages,
                    },
                    ids: turn.ids,
                }
            } else {
                let role = target_role(role_of(raw));
                let p = user_blocks(c, blocks, role);
                ConversationV { messages: flushed(p.messages, p.pending, role), ids: p.ids }
            }
        },
        _ => c,
    }
}

/// The conversation with all the given messages.
pub open spec fn conversation(start: Seq<JsonV>, raw: Seq<JsonV>) -> ConversationV
    decreases raw.len(),
{
    if raw.len() == 0 {
        ConversationV { messages: start, ids: no_ids() }
    } else {
        conversation_step(conversation(start, raw.drop_last()), raw.last())
    }
}

/// The leading system message, where the request has a system prompt.
pub open spec fn system_messages(body: JsonV) -> Seq<JsonV> {
    match system_prompt(body.get("system"@)) {
        Some(s) => seq![chat_message("system"@, s)],
        None => Seq::empty(),
    }
}

/// The chat messages of a request.
pub open spec fn messages_of(body: JsonV) -> Seq<JsonV> {
    conversation(system_messages(body), body.list("messages"@)).messages
}

/// What the tool offers of a request come to.
#[verifier::ext_equal]
pub struct ToolsV {
    pub tools: Seq<JsonV>,
    pub meta: Seq<ToolMetaV>,
    pub web_search: Option<WebSearchMetaV>,
}

/// The name a tool reaches the upstream under; a custom tool that names
/// nothing has none.
pub open spec fn offered_name(tool: JsonV, family: ToolFamily) -> Option<Seq<char>> {
    match tool.get_str("name"@) {
        Some(name) => Some(name),
        None => if family == ToolFamily::Custom {
            None
        } else {
            Some(default_name(family))
        },
    }
}

/// The parameters of a tool: its own schema, the family's, or the empty
/// object schema.
pub open spec fn offered_schema(tool: JsonV, family: ToolFamily) -> JsonV {
    match tool.get("input_schema"@) {
        Some(schema) => schema,
        None => match family_schema(family, tool.get_str("type"@)) {
            Some(schema) => schema,
            None => empty_object().with("type"@, JsonV::Str("object"@)).with(
                "properties"@,
                empty_object(),
            ),
        },
    }
}

/// The description of a tool: its own, the family's, or null.
pub open spec fn offered_description(tool: JsonV, family: ToolFamily) -> JsonV {
    match tool.get("description"@) {
        Some(description) => description,
        None => match default_description(family) {
            Some(description) => JsonV::Str(description),
            None => JsonV::Null,
        },
    }
}

/// An OpenAI function tool.
pub open spec fn function_tool(name: Seq<char>, description: JsonV, parameters: JsonV) -> JsonV {
    empty_object().with("type"@, JsonV::Str("function"@)).with(
        "function"@,
        empty_object().with("name"@, JsonV::Str(name)).with("description"@, description).with(
            "parameters"@,
            parameters,
        ),
    )
}

/// The call cap of a web_search offer, where it is a positive number of 32
/// bits.
pub open spec fn offered_max_uses(tool: JsonV) -> Option<u32> {
    match tool.get_u64("max_uses"@) {
        Some(n) => if 0 < n <= u32::MAX {
            Some(n as u32)
        } else {
            None
        },
        None => None,
    }
}

/// The location of a web_search offer, where it is an object.
pub open spec fn offered_location(tool: JsonV) -> Option<JsonV> {
    match tool.get("user_location"@) {
        Some(v) => if v is Object {
            Some(v)
        } else {
            None
        },
        None => None,
    }
}

/// Why a tool offer is refused, if it is.
pub open spec fn tool_refusal(tool: JsonV) -> Option<BridgeErrorV> {
    let t = tool.get_str("type"@);
    if t == Some("mcp_toolset"@) || t == Some("mcp"@) || !known_type(t) {
        Some(server_tool_error(t->0))
    } else if !allows_direct(tool.get("allowed_callers"@)) {
        Some(caller_error())
    } else {
        None
    }
}

/// The offers with one more tool, or the refusal of it.
pub open spec fn tools_step(t: ToolsV, tool: JsonV) -> Result<ToolsV, BridgeErrorV> {
    if !(tool is Object) {
        Ok(t)
    } else {
        match tool_refusal(tool) {
            Some(e) => Err(e),
            None => {
                let family = family_of(tool.get_str("type"@));
                match offered_name(tool, family) {
                    None => Ok(t),
                    Some(name) => Ok(
                        ToolsV {
                            tools: t.tools.push(
                                function_tool(
                                    name,
                                    offered_description(tool, family),
                                    offered_schema(tool, family),
                                ),
                            ),
                            meta: t.meta.push(ToolMetaV { name, family }),
                            web_search: if family == ToolFamily::WebSearch {
                                Some(
                                    WebSearchMetaV {
                                        name,
                                        max_uses: offered_max_uses(tool),
                                        user_location: offered_location(tool),
                                    },
                                )
                            } else {
                                t.web_search
                            },
                        },
                    ),
                }
            },
        }
    }
}

/// What the given tool offers come to, or the first refusal.
pub open spec fn tools_of(raw: Seq<JsonV>) -> Result<ToolsV, BridgeErrorV>
    decreases raw.len(),
{
    if raw.len() == 0 {
        Ok(ToolsV { tools: Seq::empty(), meta: Seq::empty(), web_search: None })
    } else {
        match tools_of(raw.drop_last()) {
            Ok(t) => tools_step(t, raw.last()),
            Err(e) => Err(e),
        }
    }
}

/// `tool_choice` in the OpenAI dialect, and whether it forces a tool call.
pub open spec fn choice_of(v: Option<JsonV>) -> Result<(Option<JsonV>, bool), BridgeErrorV> {
    match v {
        Some(JsonV::Str(s)) => if s == "any"@ || s == "required"@ {
            Ok((Some(JsonV::Str("required"@)), true))
        } else {
            Ok((Some(JsonV::Str(s)), false))
        },
        Some(JsonV::Object(m)) => {
            let t = JsonV::Object(m).get_str("type"@);
            if t == Some("auto"@) {
                Ok((Some(JsonV::Str("auto"@)), false))
            } else if t == Some("any"@) {
                Ok((Some(JsonV::Str("required"@)), true))
            } else if t == Some("none"@) {
                Ok((Some(JsonV::Str("none"@)), false))
            } else if t == Some("tool"@) {
                match JsonV::Object(m).get_str("name"@) {
                    Some(name) => Ok(
                        (
                            Some(
                                empty_object().with("type"@, JsonV::Str("function"@)).with(
                                    "function"@,
                                    empty_object().with("name"@, JsonV::Str(name)),
                                ),
                            ),
                            true,
                        ),
                    ),
                    None => Err(
                        bridge_error(
                            "invalid_tool_choice"@,
                            "tool_choice {\"type\":\"tool\"} requires a name"@,
                        ),
                    ),
                }
            } else {
                Ok((None, false))
            }
        },
        _ => Ok((None, false)),
    }
}

/// A request field that is there and not null.
pub open spec fn present(body: JsonV, key: Seq<char>) -> Option<JsonV> {
    match body.get(key) {
        Some(v) => if v is Null {
            None
        } else {
            Some(v)
        },
        None => None,
    }
}

/// Whether tool calls may run in parallel, where the request says so.
pub open spec fn parallel_calls(body: JsonV) -> Option<bool> {
    match body.get_bool("parallel_tool_use"@) {
        Some(b) => Some(b),
        None => match body.get("tool_choice"@) {
            Some(tc) => match tc.get_bool("disable_parallel_tool_use"@) {
                Some(disabled) => Some(!disabled),
                None => None,
            },
            None => None,
        },
    }
}

/// The chat-completions body.
pub open spec fn payload_json(
    body: JsonV,
    model: Seq<char>,
    tools: Seq<JsonV>,
    tool_choice: Option<JsonV>,
) -> JsonV {
    let plain = empty_object().with("model"@, JsonV::Str(model)).with(
        "messages"@,
        JsonV::Array(messages_of(body)),
    ).with_some("max_tokens"@, present(body, "max_tokens"@)).with_some(
        "temperature"@,
        present(body, "temperature"@),
    ).with_some("top_p"@, present(body, "top_p"@)).with_some(
        "stop"@,
        present(body, "stop_sequences"@),
    ).with_some("stream"@, present(body, "stream"@)).with_some("seed"@, present(body, "seed"@));
    let offered = if tools.len() > 0 {
        plain.with("tools"@, JsonV::Array(tools))
    } else {
        plain
    };
    let chosen = offered.with_some("tool_choice"@, tool_choice);
    if tools.len() > 0 {
        match parallel_calls(body) {
            Some(p) => chosen.with("parallel_tool_calls"@, JsonV::Bool(p)),
            None => chosen,
        }
    } else {
        chosen
    }
}

/// What a Messages request becomes, or why it is refused.
pub open spec fn payload_of(body: JsonV, beta: Seq<char>) -> Result<ChatPayloadV, BridgeErrorV> {
    match body.get_str("model"@) {
        None => Err(bridge_error("missing_model"@, "model is required"@)),
        Some(model) => if present(body, "mcp_servers"@) is Some {
            Err(server_tool_error("mcp_servers"@))
        } else {
            match tools_of(body.list("tools"@)) {
                Err(e) => Err(e),
                Ok(t) => match choice_of(body.get("tool_choice"@)) {
                    Err(e) => Err(e),
                    Ok((tool_choice, forced_tool)) => match thinking_of(
                        body.get("thinking"@),
                        body.get("max_tokens"@),
                        body.get("temperature"@),
                        body.get("top_p"@),
                        forced_tool,
                        body.get("tools"@),
                        body.get("messages"@),
                        beta,
                    ) {
                        Err(e) => Err(e),
                        Ok(thinking) => Ok(
                            ChatPayloadV {
                                json: payload_json(body, model, t.tools, tool_choice),
                                tools: t.tools,
                                tool_meta: t.meta,
                                tool_choice,
                                forced_tool,
                                thinking,
                                web_search: t.web_search,
                            },
                        ),
                    },
                },
            }
        },
    }
}

/// The view of a transform's result.
pub open spec fn payload_result(r: Result<ChatPayload, BridgeError>) -> Result<
    ChatPayloadV,
    BridgeErrorV,
> {
    match r {
        Ok(p) => Ok(p@),
        Err(e) => Err(e@),
    }
}


/// An assistant turn while it is read.
pub struct Turn {
    pub text: Vec<String>,
    pub thinking: Vec<String>,
    pub calls: Vec<Json>,
}

impl Turn {
    pub open spec fn with_ids(self, ids: IdStateV) -> TurnV {
        TurnV {
            text: texts(self.text@),
            thinking: texts(self.thinking@),
            calls: items_view(self.calls@),
            ids,
        }
    }

    pub fn new() -> (r: Self)
        ensures
            forall|ids: IdStateV| r.with_ids(ids) == empty_turn(ids),
    {
        let r = Turn { text: Vec::new(), thinking: Vec::new(), calls: Vec::new() };
        assert(texts(r.text@) == Seq::<Seq<char>>::empty());
        assert(items_view(r.calls@) == Seq::<JsonV>::empty());
        r
    }

    /// One more tool call.
    pub fn call(&mut self, block: &Json, ids: &mut IdState)
        requires
            old(ids)@.next < u128::MAX,
        ensures
            final(self).with_ids(final(ids)@) == turn_call(old(self).with_ids(old(ids)@), block@),
            final(ids)@.next <= old(ids)@.next + 1,
    {
        let call = tool_use_to_call(block, ids);
        proof {
            lemma_items_push(self.calls@, call);
        }
        self.calls.push(call);
    }

    /// The thinking of a block, blank thinking aside.
    pub fn think(&mut self, block: &Json)
        ensures
            forall|ids: IdStateV|
                final(self).with_ids(ids) == turn_thinking(#[trigger] old(self).with_ids(ids), block@),
    {
        let raw = owned_or_empty(block.get_str("thinking"));
        let t = trim(raw.as_str());
        if !is_empty(t) {
            let ghost before = self.thinking@;
            self.thinking.push(t.to_owned());
            assert(texts(self.thinking@) == texts(before).push(t@));
        }
    }

    /// One more text.
    pub fn say(&mut self, t: String)
        ensures
            forall|ids: IdStateV|
                final(self).with_ids(ids) == (TurnV {
                    text: old(self).with_ids(ids).text.push(t@),
                    ..#[trigger] old(self).with_ids(ids)
                }),
    {
        let ghost before = self.text@;
        self.text.push(t);
        assert(texts(self.text@) == texts(before).push(t@));
    }

    /// The merged text: tagged thinking first, then the texts.
    pub fn merge(&self) -> (r: String)
        ensures
            forall|ids: IdStateV| r@ == turn_text(#[trigger] self.with_ids(ids)),
    {
        let ghost tags = texts(self.thinking@).map_values(|t: Seq<char>| tagged(t));
        let ghost said = texts(self.text@);
        let ghost all = tags + said;
        let mut out = String::new();
        let mut i: usize = 0;
        assert(all.take(0) == Seq::<Seq<char>>::empty());
        while i < self.thinking.len()
            invariant
                i <= self.thinking@.len(),
                tags == texts(self.thinking@).map_values(|t: Seq<char>| tagged(t)),
                all == tags + said,
                out@ == merged(all.take(i as int)),
            decreases self.thinking@.len() - i,
        {
            let chunk = concat3("<thinking>", self.thinking[i].as_str(), "</thinking>");
            proof {
                assert(all.take(i + 1).drop_last() == all.take(i as int));
                assert(all.take(i + 1).last() == tags[i as int]);
                assert(tags[i as int] == tagged(self.thinking@[i as int]@));
            }
            if !is_empty(out.as_str()) {
                out.append("\n");
            }
            out.append(chunk.as_str());
            assert(out@ == merged_with(merged(all.take(i as int)), chunk@));
            i = i + 1;
        }
        let n: usize = self.thinking.len();
        let mut j: usize = 0;
        while j < self.text.len()
            invariant
                j <= self.text@.len(),
                n == self.thinking@.len(),
                tags.len() == n,
                said == texts(self.text@),
                all == tags + said,
                out@ == merged(all.take(n + j)),
            decreases self.text@.len() - j,
        {
            proof {
                assert(all.take(n + j + 1).drop_last() == all.take(n + j));
                assert(all.take(n + j + 1).last() == said[j as int]);
                assert(said[j as int] == self.text@[j as int]@);
            }
            if !is_empty(out.as_str()) {
                out.append("\n");
            }
            out.append(self.text[j].as_str());
            assert(out@ == merged_with(merged(all.take(n + j)), said[j as int]));
            j = j + 1;
        }
        assert(all.take(all.len() as int) == all);
        assert forall|ids: IdStateV| out@ == turn_text(#[trigger] self.with_ids(ids)) by {
            assert(self.with_ids(ids).thinking.map_values(|t: Seq<char>| tagged(t)) == tags);
        }
        out
    }
}

/// The turn an assistant message's blocks make.
fn read_turn(blocks: &Vec<Json>, ids: &mut IdState) -> (r: Turn)
    requires
        old(ids)@.next + blocks@.len() <= u128::MAX,
    ensures
        r.with_ids(final(ids)@) == assistant_turn(items_view(blocks@), old(ids)@),
        final(ids)@.next <= old(ids)@.next + blocks@.len(),
{
    let ghost all = items_view(blocks@);
    let ghost start = ids@;
    let mut turn = Turn::new();
    let mut i: usize = 0;
    assert(all.take(0) == Seq::<JsonV>::empty());
    while i < blocks.len()
        invariant
            i <= blocks@.len(),
            all == items_view(blocks@),
            turn.with_ids(ids@) == assistant_turn(all.take(i as int), start),
            ids@.next <= start.next + i,
            start.next + blocks@.len() <= u128::MAX,
        decreases blocks@.len() - i,
    {
        let block = &blocks[i];
        proof {
            lemma_items_view(blocks@);
            assert(all.take(i + 1).drop_last() == all.take(i as int));
            assert(all.take(i + 1).last() == block@);
        }
        let ghost before = turn.with_ids(ids@);
        if has_type(block, "tool_use") || has_type(block, "server_tool_use") {
            turn.call(block, ids);
        } else if has_type(block, "thinking") {
            turn.think(block);
        } else if has_type(block, "redacted_thinking") {
        } else {
            match block_text(block) {
                Some(t) => {
                    turn.say(t);
                },
                None => {},
            }
        }
        assert(turn.with_ids(ids@) == turn_step(before, block@));
        i = i + 1;
    }
    assert(all.take(all.len() as int) == all);
    turn
}

/// Append a message.
fn push_message(messages: &mut Vec<Json>, message: Json)
    ensures
        items_view(final(messages)@) == items_view(old(messages)@).push(message@),
{
    proof {
        lemma_items_push(messages@, message);
    }
    messages.push(message);
}

/// A chat message with a role and a text.
fn message_of(role: &str, content: &str) -> (r: Json)
    ensures
        r@ == chat_message(role@, content@),
{
    Json::object().with("role", Json::text(role)).with("content", Json::text(content))
}

/// Add the chat message of an assistant turn.
fn push_assistant(turn: Turn, messages: &mut Vec<Json>)
    ensures
        forall|ids: IdStateV|
            items_view(final(messages)@) == match assistant_message(#[trigger] turn.with_ids(ids)) {
                Some(m) => items_view(old(messages)@).push(m),
                None => items_view(old(messages)@),
            },
{
    let text = turn.merge();
    let no_text = is_empty(text.as_str());
    let no_calls = turn.calls.len() == 0;
    proof {
        lemma_items_view(turn.calls@);
        assert forall|ids: IdStateV| #[trigger] turn.with_ids(ids).calls == items_view(
            turn.calls@,
        ) && turn_text(turn.with_ids(ids)) == text@ by {}
    }
    if no_text && no_calls {
        return;
    }
    let content = if no_text {
        Json::Null
    } else {
        Json::Str(text)
    };
    let message = Json::object().with("role", Json::text("assistant")).with("content", content);
    if no_calls {
        push_message(messages, message);
    } else {
        push_message(messages, message.with("tool_calls", Json::Array(turn.calls)));
    }
}

/// The messages with the pending text, if there is any, as one more.
fn flush(messages: &mut Vec<Json>, pending: &Vec<String>, role: &str)
    ensures
        items_view(final(messages)@) == flushed(
            items_view(old(messages)@),
            texts(pending@),
            role@,
        ),
{
    let text = join(pending, "\n");
    if !is_empty(text.as_str()) {
        push_message(messages, message_of(role, text.as_str()));
    }
}

/// Add the chat messages of a user-side message's blocks.
fn read_user(blocks: &Vec<Json>, role: &str, messages: &mut Vec<Json>, ids: &mut IdState)
    requires
        old(ids)@.next + blocks@.len() <= u128::MAX,
    ensures
        ({
            let p = user_blocks(
                ConversationV { messages: items_view(old(messages)@), ids: old(ids)@ },
                items_view(blocks@),
                role@,
            );
            &&& items_view(final(messages)@) == flushed(p.messages, p.pending, role@)
            &&& final(ids)@ == p.ids
        }),
        final(ids)@.next <= old(ids)@.next + blocks@.len(),
{
    let ghost all = items_view(blocks@);
    let ghost start = ConversationV { messages: items_view(messages@), ids: ids@ };
    let mut pending: Vec<String> = Vec::new();
    let mut i: usize = 0;
    assert(texts(pending@) == Seq::<Seq<char>>::empty());
    assert(all.take(0) == Seq::<JsonV>::empty());
    while i < blocks.len()
        invariant
            i <= blocks@.len(),
            all == items_view(blocks@),
            (PartialV {
                messages: items_view(messages@),
                pending: texts(pending@),
                ids: ids@,
            }) == user_blocks(start, all.take(i as int), role@),
            ids@.next <= start.ids.next + i,
            start.ids.next + blocks@.len() <= u128::MAX,
        decreases blocks@.len() - i,
    {
        let block = &blocks[i];
        let ghost before = PartialV {
            messages: items_view(messages@),
            pending: texts(pending@),
            ids: ids@,
        };
        proof {
            lemma_items_view(blocks@);
            assert(all.take(i + 1).drop_last() == all.take(i as int));
            assert(all.take(i + 1).last() == block@);
        }
        if is_tool_result(block) {
            flush(messages, &pending, role);
            pending = Vec::new();
            assert(texts(pending@) == Seq::<Seq<char>>::empty());
            let id = ids.result_id(block);
            let result = tool_result_text(block);
            let content = if is_empty(result.as_str()) {
                "(no output)".to_owned()
            } else {
                result
            };
            push_message(
                messages,
                Json::object().with("role", Json::text("tool")).with(
                    "tool_call_id",
                    Json::Str(id),
                ).with("content", Json::Str(content)),
            );
        } else {
            match block_text(block) {
                Some(t) => {
                    let ghost so_far = pending@;
                    pending.push(t);
                    assert(texts(pending@) == texts(so_far).push(t@));
                },
                None => {},
            }
        }
        assert((PartialV {
            messages: items_view(messages@),
            pending: texts(pending@),
            ids: ids@,
        }) == user_step(before, block@, role@));
        i = i + 1;
    }
    assert(all.take(all.len() as int) == all);
    flush(messages, &pending, role);
}

/// Add the chat messages of one more message of the request.
fn read_message(raw: &Json, messages: &mut Vec<Json>, ids: &mut IdState)
    requires
        old(ids)@.next + usize::MAX <= u128::MAX,
    ensures
        (ConversationV { messages: items_view(final(messages)@), ids: final(ids)@ })
            == conversation_step(
            ConversationV { messages: items_view(old(messages)@), ids: old(ids)@ },
            raw@,
        ),
        final(ids)@.next <= old(ids)@.next + usize::MAX,
{
    match raw {
        Json::Str(text) => push_message(messages, message_of("user", text.as_str())),
        Json::Object(_) => {
            let blocks = content_blocks(raw.get("content"));
            assert(blocks.len() <= usize::MAX);
            let role = match raw.get_str("role") {
                Some(role) => role,
                None => "user",
            };
            if same(role, "assistant") {
                let turn = read_turn(&blocks, ids);
                push_assistant(turn, messages);
            } else {
                let target = if same(role, "developer") || same(role, "system") {
                    "system"
                } else {
                    "user"
                };
                read_user(&blocks, target, messages, ids);
            }
        },
        _ => {},
    }
}

/// The chat messages of a request.
fn read_messages(body: &Json) -> (r: Vec<Json>)
    ensures
        items_view(r@) == messages_of(body@),
{
    let mut messages: Vec<Json> = Vec::new();
    assert(items_view(messages@) == Seq::<JsonV>::empty());
    match system_text(body.get("system")) {
        Some(system) => push_message(&mut messages, message_of("system", system.as_str())),
        None => {},
    }
    let ghost start = system_messages(body@);
    assert(items_view(messages@) == start);
    let mut ids = IdState::new();
    let raw = body.list("messages");
    let ghost all = body@.list("messages"@);
    let mut i: usize = 0;
    assert(all.take(0) == Seq::<JsonV>::empty());
    while i < raw.len()
        invariant
            i <= raw@.len(),
            all == items_view(raw@),
            (ConversationV { messages: items_view(messages@), ids: ids@ }) == conversation(
                start,
                all.take(i as int),
            ),
            ids@.next <= i * 0x1_0000_0000_0000_0000,
        decreases raw@.len() - i,
    {
        proof {
            lemma_items_view(raw@);
            assert(all.take(i + 1).drop_last() == all.take(i as int));
            assert(all.take(i + 1).last() == raw@[i as int]@);
        }
        read_message(&raw[i], &mut messages, &mut ids);
        i = i + 1;
    }
    assert(all.take(all.len() as int) == all);
    messages
}


/// The tool offers of a request while they are read.
struct Offers {
    tools: Vec<Json>,
    meta: Vec<ToolMeta>,
    web_search: Option<WebSearchMeta>,
}

impl View for Offers {
    type V = ToolsV;

    closed spec fn view(&self) -> ToolsV {
        ToolsV {
            tools: items_view(self.tools@),
            meta: metas(self.meta@),
            web_search: opt_search(self.web_search),
        }
    }
}

/// Whether a tool offer may be served.
fn check_tool(tool: &Json) -> (r: Result<(), BridgeError>)
    ensures
        match r {
            Ok(_) => tool_refusal(tool@) is None,
            Err(e) => tool_refusal(tool@) == Some(e@),
        },
{
    let tool_type = tool.get_str("type");
    match tool_type {
        Some(t) => {
            if same(t, "mcp_toolset") || same(t, "mcp") {
                return Err(reject_server_tool(t));
            }
        },
        None => {},
    }
    match check_unknown_tool_type(tool_type) {
        Err(e) => {
            return Err(e);
        },
        Ok(_) => {},
    }
    check_allowed_callers(tool.get("allowed_callers"))
}

/// The name a tool reaches the upstream under.
fn name_of(tool: &Json, family: ToolFamily) -> (r: Option<String>)
    ensures
        opt_text(r) == offered_name(tool@, family),
{
    match tool.get_str("name") {
        Some(name) => Some(name.to_owned()),
        None => if family == ToolFamily::Custom {
            None
        } else {
            Some(family_default_name(family))
        },
    }
}

/// The OpenAI function tool of an offer.
fn function_of(tool: &Json, name: &str, family: ToolFamily) -> (r: Json)
    requires
        family == family_of(tool@.get_str("type"@)),
    ensures
        r@ == function_tool(
            name@,
            offered_description(tool@, family),
            offered_schema(tool@, family),
        ),
{
    let schema = match tool.get("input_schema") {
        Some(schema) => schema.clone(),
        None => match client_tool_parameters(family, tool.get_str("type")) {
            Some(schema) => schema,
            None => Json::object().with("type", Json::text("object")).with(
                "properties",
                Json::object(),
            ),
        },
    };
    let description = match tool.get("description") {
        Some(description) => description.clone(),
        None => match client_tool_description(family) {
            Some(description) => Json::text(description),
            None => Json::Null,
        },
    };
    Json::object().with("type", Json::text("function")).with(
        "function",
        Json::object().with("name", Json::text(name)).with("description", description).with(
            "parameters",
            schema,
        ),
    )
}

/// The execution metadata of a web_search offer: `max_uses` bounds how many
/// searches this request may run; `user_location` is folded into the query.
/// Non-conforming values are dropped, never guessed — the executor then
/// fails the over-cap call with a typed result block instead of searching.
fn search_of(tool: &Json, name: &str) -> (r: WebSearchMeta)
    ensures
        r@ == (WebSearchMetaV {
            name: name@,
            max_uses: offered_max_uses(tool@),
            user_location: offered_location(tool@),
        }),
{
    let max_uses = match tool.get_u64("max_uses") {
        Some(n) => if 0 < n && n <= u32::MAX as u64 {
            Some(n as u32)
        } else {
            None
        },
        None => None,
    };
    let user_location = match tool.get("user_location") {
        Some(v) => if v.is_object() {
            Some(v.clone())
        } else {
            None
        },
        None => None,
    };
    WebSearchMeta { name: name.to_owned(), max_uses, user_location }
}

/// Take in one more tool offer.
fn read_tool(tool: &Json, offers: Offers) -> (r: Result<Offers, BridgeError>)
    ensures
        match (r, tools_step(offers@, tool@)) {
            (Ok(o), Ok(t)) => o@ == t,
            (Err(e), Err(f)) => e@ == f,
            _ => false,
        },
{
    if !tool.is_object() {
        return Ok(offers);
    }
    match check_tool(tool) {
        Err(e) => {
            return Err(e);
        },
        Ok(_) => {},
    }
    let family = tool_family(tool.get_str("type"));
    let name = match name_of(tool, family) {
        Some(name) => name,
        // A custom tool with no name carries no callable schema.
        None => {
            return Ok(offers);
        },
    };
    let ghost before = offers@;
    let mut tools = offers.tools;
    let mut meta = offers.meta;
    push_message(&mut tools, function_of(tool, name.as_str(), family));
    let web_search = if family == ToolFamily::WebSearch {
        Some(search_of(tool, name.as_str()))
    } else {
        offers.web_search
    };
    let entry = ToolMeta { name, family };
    proof {
        assert(metas(meta@.push(entry)) == metas(meta@).push(entry@));
    }
    meta.push(entry);
    Ok(Offers { tools, meta, web_search })
}

/// The tool offers of a request.
fn read_tools(body: &Json) -> (r: Result<Offers, BridgeError>)
    ensures
        match (r, tools_of(body@.list("tools"@))) {
            (Ok(o), Ok(t)) => o@ == t,
            (Err(e), Err(f)) => e@ == f,
            _ => false,
        },
{
    let raw = body.list("tools");
    let ghost all = body@.list("tools"@);
    let mut offers = Offers { tools: Vec::new(), meta: Vec::new(), web_search: None };
    let mut i: usize = 0;
    assert(all.take(0) == Seq::<JsonV>::empty());
    assert(items_view(offers.tools@) == Seq::<JsonV>::empty());
    assert(metas(offers.meta@) == Seq::<ToolMetaV>::empty());
    while i < raw.len()
        invariant
            i <= raw@.len(),
            all == items_view(raw@),
            all == body@.list("tools"@),
            tools_of(all.take(i as int)) == Ok::<ToolsV, BridgeErrorV>(offers@),
        decreases raw@.len() - i,
    {
        proof {
            lemma_items_view(raw@);
            assert(all.take(i + 1).drop_last() == all.take(i as int));
            assert(all.take(i + 1).last() == raw@[i as int]@);
        }
        offers = match read_tool(&raw[i], offers) {
            Ok(o) => o,
            Err(e) => {
                proof {
                    lemma_refused(all, i + 1);
                }
                return Err(e);
            },
        };
        i = i + 1;
    }
    assert(all.take(all.len() as int) == all);
    Ok(offers)
}

/// A refusal among the first offers is the refusal of all of them.
proof fn lemma_refused(raw: Seq<JsonV>, n: int)
    requires
        0 <= n <= raw.len(),
        tools_of(raw.take(n)) is Err,
    ensures
        tools_of(raw) == tools_of(raw.take(n)),
    decreases raw.len() - n,
{
    if n < raw.len() {
        assert(raw.take(n + 1).drop_last() == raw.take(n));
        lemma_refused(raw, n + 1);
    } else {
        assert(raw.take(n) == raw);
    }
}

/// `tool_choice` in the Anthropic dialect, in both the string and the
/// object forms, mapped to OpenAI. `any` and a named tool force a tool
/// call; `none` means no tools at all.
pub fn map_tool_choice(v: Option<&Json>) -> (r: Result<(Option<Json>, bool), BridgeError>)
    ensures
        match (r, choice_of(opt_json(v))) {
            (Ok((c, f)), Ok((d, g))) => opt_owned(c) == d && f == g,
            (Err(e), Err(f)) => e@ == f,
            _ => false,
        },
{
    match v {
        Some(Json::Str(s)) => {
            if same(s.as_str(), "any") || same(s.as_str(), "required") {
                Ok((Some(Json::text("required")), true))
            } else {
                Ok((Some(Json::text(s.as_str())), false))
            }
        },
        Some(o) => {
            if !o.is_object() {
                return Ok((None, false));
            }
            match o.get_str("type") {
                Some(t) => {
                    if same(t, "auto") {
                        Ok((Some(Json::text("auto")), false))
                    } else if same(t, "any") {
                        Ok((Some(Json::text("required")), true))
                    } else if same(t, "none") {
                        Ok((Some(Json::text("none")), false))
                    } else if same(t, "tool") {
                        match o.get_str("name") {
                            Some(name) => Ok(
                                (
                                    Some(
                                        Json::object().with("type", Json::text("function")).with(
                                            "function",
                                            Json::object().with("name", Json::text(name)),
                                        ),
                                    ),
                                    true,
                                ),
                            ),
                            None => Err(
                                BridgeError::new(
                                    "invalid_tool_choice",
                                    "tool_choice {\"type\":\"tool\"} requires a name",
                                ),
                            ),
                        }
                    } else {
                        Ok((None, false))
                    }
                },
                None => Ok((None, false)),
            }
        },
        None => Ok((None, false)),
    }
}

/// A request field that is there and not null.
fn field(body: &Json, key: &str) -> (r: Option<Json>)
    ensures
        opt_owned(r) == present(body@, key@),
{
    match body.get(key) {
        Some(v) => if v.is_null() {
            None
        } else {
            Some(v.clone())
        },
        None => None,
    }
}

/// Whether tool calls may run in parallel: `parallel_tool_use` is a
/// top-level request field; `tool_choice.disable_parallel_tool_use` inverts
/// onto OpenAI's `parallel_tool_calls`.
fn parallel(body: &Json) -> (r: Option<bool>)
    ensures
        r == parallel_calls(body@),
{
    match body.get_bool("parallel_tool_use") {
        Some(b) => Some(b),
        None => match body.get("tool_choice") {
            Some(tc) => match tc.get_bool("disable_parallel_tool_use") {
                Some(disabled) => Some(!disabled),
                None => None,
            },
            None => None,
        },
    }
}

/// A copy of a list of values.
pub(crate) fn copied(items: &Vec<Json>) -> (r: Vec<Json>)
    ensures
        items_view(r@) == items_view(items@),
{
    let mut out: Vec<Json> = Vec::new();
    let ghost all = items_view(items@);
    let mut i: usize = 0;
    assert(items_view(out@) == all.take(0));
    while i < items.len()
        invariant
            i <= items@.len(),
            all == items_view(items@),
            items_view(out@) == all.take(i as int),
        decreases items@.len() - i,
    {
        push_message(&mut out, items[i].clone());
        assert(all.take(i + 1) == all.take(i as int).push(items@[i as int]@));
        i = i + 1;
    }
    assert(all.take(all.len() as int) == all);
    out
}

/// The chat-completions body.
fn payload(body: &Json, model: &str, tools: &Vec<Json>, tool_choice: Option<Json>) -> (r: Json)
    ensures
        r@ == payload_json(body@, model@, items_view(tools@), opt_owned(tool_choice)),
{
    let messages = read_messages(body);
    let plain = Json::object().with("model", Json::text(model)).with(
        "messages",
        Json::Array(messages),
    ).with_some("max_tokens", field(body, "max_tokens")).with_some(
        "temperature",
        field(body, "temperature"),
    ).with_some("top_p", field(body, "top_p")).with_some(
        "stop",
        field(body, "stop_sequences"),
    ).with_some("stream", field(body, "stream")).with_some("seed", field(body, "seed"));
    proof {
        lemma_items_view(tools@);
    }
    let offers = tools.len() > 0;
    let offered = if offers {
        plain.with("tools", Json::Array(copied(tools)))
    } else {
        plain
    };
    let chosen = offered.with_some("tool_choice", tool_choice);
    if offers {
        match parallel(body) {
            Some(p) => chosen.with("parallel_tool_calls", Json::Bool(p)),
            None => chosen,
        }
    } else {
        chosen
    }
}

/// Convert an Anthropic Messages request body to an OpenAI chat payload.
///
/// `system` (string or blocks) becomes a leading system message; assistant
/// `tool_use` blocks become `tool_calls`; user `tool_result` blocks become
/// `role: "tool"` messages flushed after any pending text; client tool
/// prefixes map onto OpenAI functions (the family name is carried in
/// `tool_meta`); `stop_sequences` becomes `stop`.
///
/// Rejected with a typed error: `mcp_servers`, `mcp_toolset` tools,
/// `allowed_callers` lacking `direct`, and invalid `thinking`
/// combinations. `beta` is the raw `anthropic-beta` header value.
pub fn to_chat_payload(body: &Json, beta: &str) -> (r: Result<ChatPayload, BridgeError>)
    ensures
        payload_result(r) == payload_of(body@, beta@),
{
    let model = match body.get_str("model") {
        Some(model) => model,
        None => {
            return Err(BridgeError::new("missing_model", "model is required"));
        },
    };
    match field(body, "mcp_servers") {
        Some(_) => {
            return Err(reject_server_tool("mcp_servers"));
        },
        None => {},
    }
    let offers = match read_tools(body) {
        Ok(o) => o,
        Err(e) => {
            return Err(e);
        },
    };
    let (tool_choice, forced_tool) = match map_tool_choice(body.get("tool_choice")) {
        Ok(c) => c,
        Err(e) => {
            return Err(e);
        },
    };
    let thinking = match resolve_thinking(
        body.get("thinking"),
        body.get("max_tokens"),
        body.get("temperature"),
        body.get("top_p"),
        forced_tool,
        body.get("tools"),
        body.get("messages"),
        beta,
    ) {
        Ok(t) => t,
        Err(e) => {
            return Err(e);
        },
    };
    let choice_copy = match &tool_choice {
        Some(c) => Some(c.clone()),
        None => None,
    };
    let json = payload(body, model, &offers.tools, choice_copy);
    Ok(
        ChatPayload {
            json,
            tools: offers.tools,
            tool_meta: offers.meta,
            tool_choice,
            forced_tool,
            thinking,
            web_search: offers.web_search,
        },
    )
}

}
