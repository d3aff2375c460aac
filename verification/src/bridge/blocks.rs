//! Content blocks: the wire shapes Anthropic content comes in, the text a
//! block contributes to a chat message, and the ids that pair tool calls
//! with their results.
use crate::codec::{json_of_text, json_text, max_depth, print, reproducible};
use crate::json::{empty_object, items_view, lemma_items_push, lemma_items_view, opt_json, Json, JsonV};
use crate::text::{
    concat, decimal, decimal_text, ends_with, is_empty, join, joined, non_empty, opt_text, or_empty,
    owned_or_empty, same, texts, unless_empty,
};
use vstd::prelude::*;

verus! {

broadcast use vstd::string::group_string_axioms;

/// Whether a block carries the given `type`.
pub open spec fn type_is(block: JsonV, t: Seq<char>) -> bool {
    block.get_str("type"@) == Some(t)
}

/// A text block.
pub open spec fn text_block(s: Seq<char>) -> JsonV {
    empty_object().with("type"@, JsonV::Str("text"@)).with("text"@, JsonV::Str(s))
}

/// A content list entry as a block: a bare string is a text block.
pub open spec fn as_block(item: JsonV) -> JsonV {
    match item {
        JsonV::Str(s) => text_block(s),
        other => other,
    }
}

/// Anthropic content, in all its wire shapes, as a block list.
pub open spec fn blocks_of(content: Option<JsonV>) -> Seq<JsonV> {
    match content {
        None => Seq::empty(),
        Some(JsonV::Null) => Seq::empty(),
        Some(JsonV::Str(s)) => seq![text_block(s)],
        Some(JsonV::Array(items)) => items.map_values(|item: JsonV| as_block(item)),
        Some(other) => seq![other],
    }
}

/// The text a block contributes when folded into a chat message.
pub open spec fn text_of_block(block: JsonV) -> Option<Seq<char>> {
    if type_is(block, "image"@) {
        Some("[image content omitted]"@)
    } else if type_is(block, "document"@) {
        Some("[document content omitted]"@)
    } else if type_is(block, "redacted_thinking"@) {
        None
    } else if type_is(block, "thinking"@) {
        block.get_str("thinking"@)
    } else {
        block.get_str("text"@)
    }
}

/// The non-empty texts that blocks contribute, in order.
pub open spec fn texts_of_blocks(blocks: Seq<JsonV>) -> Seq<Seq<char>>
    decreases blocks.len(),
{
    if blocks.len() == 0 {
        Seq::empty()
    } else {
        let head = texts_of_blocks(blocks.drop_last());
        match non_empty(text_of_block(blocks.last())) {
            Some(t) => head.push(t),
            None => head,
        }
    }
}

/// Blocks folded into one text, a line each.
pub open spec fn folded(blocks: Seq<JsonV>) -> Seq<char> {
    joined(texts_of_blocks(blocks), "\n"@)
}

/// The system prompt in a `system` field.
pub open spec fn system_prompt(v: Option<JsonV>) -> Option<Seq<char>> {
    match v {
        None => None,
        Some(JsonV::Null) => None,
        Some(JsonV::Str(s)) => Some(s),
        Some(JsonV::Array(items)) => non_empty(Some(folded(items))),
        Some(other) => Some(json_text(other)),
    }
}

/// Whether a block is a tool result, plain or of a named tool.
pub open spec fn is_result(block: JsonV) -> bool {
    match block.get_str("type"@) {
        Some(t) => t == "tool_result"@ || "_tool_result"@.is_suffix_of(t),
        None => false,
    }
}

/// The text of a result before the error flag is heeded.
pub open spec fn raw_result(block: JsonV) -> Seq<char> {
    match block.get("content"@) {
        None => Seq::empty(),
        Some(JsonV::Str(s)) => s,
        Some(JsonV::Array(items)) => folded(items),
        Some(other) => json_text(other),
    }
}

/// The text a tool result maps to.
pub open spec fn result_text(block: JsonV) -> Seq<char> {
    if block.get_bool("is_error"@) == Some(true) {
        "tool returned an error: "@ + raw_result(block)
    } else {
        raw_result(block)
    }
}

/// The ids of one request: how many were synthesized, and which of those no
/// result has claimed yet, oldest first.
#[verifier::ext_equal]
pub struct IdStateV {
    pub next: nat,
    pub pending: Seq<Seq<char>>,
}

/// The state before any id was given.
pub open spec fn no_ids() -> IdStateV {
    IdStateV { next: 0, pending: Seq::empty() }
}

/// The `n`th synthesized id.
pub open spec fn synthesized(n: nat) -> Seq<char> {
    "toolu_bridge_"@ + decimal(n)
}

/// The id of a `tool_use` block, and the ids after it: an explicit id is
/// kept, an absent one is synthesized and waits for its result.
pub open spec fn use_id_of(ids: IdStateV, block: JsonV) -> (Seq<char>, IdStateV) {
    match non_empty(block.get_str("id"@)) {
        Some(id) => (id, ids),
        None => {
            let id = synthesized(ids.next);
            (id, IdStateV { next: ids.next + 1, pending: ids.pending.push(id) })
        },
    }
}

/// The id a result names itself: `tool_use_id`, else `id`.
pub open spec fn explicit_result_id(block: JsonV) -> Option<Seq<char>> {
    match non_empty(block.get_str("tool_use_id"@)) {
        Some(id) => Some(id),
        None => non_empty(block.get_str("id"@)),
    }
}

/// The id of a `tool_result` block, and the ids after it: an explicit id is
/// kept, else the oldest waiting id is claimed, else one is synthesized.
pub open spec fn result_id_of(ids: IdStateV, block: JsonV) -> (Seq<char>, IdStateV) {
    match explicit_result_id(block) {
        Some(id) => (id, ids),
        None => if ids.pending.len() == 0 {
            (synthesized(ids.next), IdStateV { next: ids.next + 1, pending: ids.pending })
        } else {
            (ids.pending[0], IdStateV { next: ids.next, pending: ids.pending.drop_first() })
        },
    }
}

/// The input a `tool_use` block hands to its tool.
pub open spec fn block_input(block: JsonV) -> JsonV {
    match block.get("input"@) {
        Some(input) => input,
        None => empty_object(),
    }
}

/// Whether an input travels as JSON text that reads back as the input: it
/// is no string, holds no float and no reserved name, and is not nested too
/// deeply.
pub open spec fn printable(input: JsonV) -> bool {
    !(input is Str) && reproducible(input, max_depth())
}

/// The `arguments` text of a block's input.
pub open spec fn arguments_of(block: JsonV) -> Seq<char> {
    match block.get("input"@) {
        None => json_text(empty_object()),
        Some(JsonV::Str(s)) => s,
        Some(other) => json_text(other),
    }
}

/// A chat tool call.
pub open spec fn tool_call(id: Seq<char>, name: Seq<char>, arguments: Seq<char>) -> JsonV {
    empty_object().with("id"@, JsonV::Str(id)).with("type"@, JsonV::Str("function"@)).with(
        "function"@,
        empty_object().with("name"@, JsonV::Str(name)).with("arguments"@, JsonV::Str(arguments)),
    )
}

/// The chat tool call of a `tool_use` block.
pub open spec fn call_of(block: JsonV, id: Seq<char>) -> JsonV {
    tool_call(id, or_empty(block.get_str("name"@)), arguments_of(block))
}

/// Whether a block carries the given `type`.
pub fn has_type(block: &Json, t: &str) -> (r: bool)
    ensures
        r == type_is(block@, t@),
{
    match block.get_str("type") {
        Some(s) => same(s, t),
        None => false,
    }
}

/// A text block.
pub fn text_block_of(s: &str) -> (r: Json)
    ensures
        r@ == text_block(s@),
{
    Json::object().with("type", Json::text("text")).with("text", Json::text(s))
}

/// Anthropic content, in all its wire shapes, as a block list: a string
/// becomes one text block, `null`/absent becomes none, and a block list is
/// normalized (string entries become text blocks).
pub fn content_blocks(content: Option<&Json>) -> (r: Vec<Json>)
    ensures
        items_view(r@) == blocks_of(opt_json(content)),
{
    let mut out: Vec<Json> = Vec::new();
    assert(items_view(out@) == Seq::<JsonV>::empty());
    match content {
        None => {},
        Some(Json::Null) => {},
        Some(Json::Str(s)) => {
            let block = text_block_of(s.as_str());
            proof {
                lemma_items_push(out@, block);
            }
            out.push(block);
        },
        Some(Json::Array(items)) => {
            let ghost all = items_view(items@);
            let mut i: usize = 0;
            while i < items.len()
                invariant
                    i <= items@.len(),
                    all == items_view(items@),
                    items_view(out@) == all.take(i as int).map_values(
                        |item: JsonV| as_block(item),
                    ),
                decreases items@.len() - i,
            {
                let block = match &items[i] {
                    Json::Str(s) => text_block_of(s.as_str()),
                    other => other.clone(),
                };
                proof {
                    lemma_items_push(out@, block);
                    assert(all[i as int] == items@[i as int]@);
                    assert(block@ == as_block(all[i as int]));
                    assert(all.take(i + 1) == all.take(i as int).push(all[i as int]));
                    assert(all.take(i + 1).map_values(|item: JsonV| as_block(item)) == all.take(
                        i as int,
                    ).map_values(|item: JsonV| as_block(item)).push(block@));
                }
                out.push(block);
                i = i + 1;
            }
            assert(all.take(all.len() as int) == all);
        },
        Some(other) => {
            let block = other.clone();
            proof {
                lemma_items_push(out@, block);
            }
            out.push(block);
        },
    }
    out
}

/// The text an Anthropic content block contributes when folded into a
/// chat message: text-family blocks yield their text, images/documents
/// yield a placeholder (the upstream model cannot see them through this
/// bridge), and redacted thinking contributes nothing.
pub fn block_text(block: &Json) -> (r: Option<String>)
    ensures
        opt_text(r) == text_of_block(block@),
{
    if has_type(block, "image") {
        Some("[image content omitted]".to_owned())
    } else if has_type(block, "document") {
        Some("[document content omitted]".to_owned())
    } else if has_type(block, "redacted_thinking") {
        None
    } else {
        let text = if has_type(block, "thinking") {
            block.get_str("thinking")
        } else {
            block.get_str("text")
        };
        match text {
            Some(t) => Some(t.to_owned()),
            None => None,
        }
    }
}

/// Blocks folded into one text, a line each.
fn fold_blocks(items: &Vec<Json>) -> (r: String)
    ensures
        r@ == folded(items_view(items@)),
{
    let ghost all = items_view(items@);
    let mut parts: Vec<String> = Vec::new();
    let mut i: usize = 0;
    assert(texts(parts@) == texts_of_blocks(all.take(0)));
    while i < items.len()
        invariant
            i <= items@.len(),
            all == items_view(items@),
            texts(parts@) == texts_of_blocks(all.take(i as int)),
        decreases items@.len() - i,
    {
        let ghost before = parts@;
        proof {
            lemma_items_view(items@);
            assert(all.take(i + 1).drop_last() == all.take(i as int));
            assert(all.take(i + 1).last() == items@[i as int]@);
        }
        match block_text(&items[i]) {
            Some(t) => {
                if !is_empty(t.as_str()) {
                    parts.push(t);
                    assert(texts(parts@) == texts(before).push(t@));
                }
            },
            None => {},
        }
        i = i + 1;
    }
    assert(all.take(all.len() as int) == all);
    join(&parts, "\n")
}

/// `system` accepts a string or a content-block array.
pub fn system_text(v: Option<&Json>) -> (r: Option<String>)
    ensures
        opt_text(r) == system_prompt(opt_json(v)),
{
    match v {
        None => None,
        Some(Json::Null) => None,
        Some(Json::Str(s)) => Some(s.clone()),
        Some(Json::Array(items)) => {
            let text = fold_blocks(items);
            if is_empty(text.as_str()) {
                None
            } else {
                Some(text)
            }
        },
        Some(other) => Some(print(other)),
    }
}

/// Whether a block is a tool result, plain or of a named tool.
pub fn is_tool_result(block: &Json) -> (r: bool)
    ensures
        r == is_result(block@),
{
    match block.get_str("type") {
        Some(t) => same(t, "tool_result") || ends_with(t, "_tool_result"),
        None => false,
    }
}

/// The result text a `tool_result` block maps to; a string result is
/// passed through, a block array is folded, and `is_error` results are
/// flagged so the model can see the failure.
pub fn tool_result_text(block: &Json) -> (r: String)
    ensures
        r@ == result_text(block@),
{
    let raw = match block.get("content") {
        None => String::new(),
        Some(Json::Str(s)) => s.clone(),
        Some(Json::Array(items)) => fold_blocks(items),
        Some(other) => print(other),
    };
    let failed = match block.get_bool("is_error") {
        Some(b) => b,
        None => false,
    };
    if failed {
        concat("tool returned an error: ", raw.as_str())
    } else {
        raw
    }
}

/// Id state for one request: synthesized tool-use ids and the lockstep
/// pairing of id-less `tool_result` blocks to them.
///
/// A `tool_use` without an `id` gets `toolu_bridge_N` from a per-request
/// counter (deterministic, never random). A `tool_result` without a
/// `tool_use_id`/`id` reuses the oldest not-yet-paired synthesized id,
/// because a valid conversation lists the `tool_use` before its
/// `tool_result`; only a result with no preceding call in the request
/// gets its own synthesized id.
pub struct IdState {
    next: u128,
    pending: Vec<String>,
}

impl View for IdState {
    type V = IdStateV;

    closed spec fn view(&self) -> IdStateV {
        IdStateV { next: self.next as nat, pending: texts(self.pending@) }
    }
}

impl IdState {
    pub fn new() -> (r: Self)
        ensures
            r@ == no_ids(),
    {
        let r = IdState { next: 0, pending: Vec::new() };
        assert(texts(r.pending@) == Seq::<Seq<char>>::empty());
        r
    }

    fn synth(&mut self) -> (r: String)
        requires
            old(self)@.next < u128::MAX,
        ensures
            r@ == synthesized(old(self)@.next),
            final(self)@ == (IdStateV { next: old(self)@.next + 1, pending: old(self)@.pending }),
    {
        let id = concat("toolu_bridge_", decimal_text(self.next).as_str());
        self.next = self.next + 1;
        id
    }

    /// Id for the `tool_use` side: an explicit id passes through
    /// untouched (invariant: identifiers stay frozen); an absent one is
    /// synthesized and queued for lockstep pairing.
    pub fn use_id(&mut self, block: &Json) -> (r: String)
        requires
            old(self)@.next < u128::MAX,
        ensures
            (r@, final(self)@) == use_id_of(old(self)@, block@),
            final(self)@.next <= old(self)@.next + 1,
    {
        match unless_empty(block.get_str("id")) {
            Some(id) => id.to_owned(),
            None => {
                let id = self.synth();
                let ghost before = self.pending@;
                self.pending.push(id.clone());
                assert(texts(self.pending@) == texts(before).push(id@));
                id
            },
        }
    }

    /// Id a `tool_result` pairs back to: `tool_use_id` first, then the
    /// block's own `id`; otherwise the oldest pending synthesized id;
    /// otherwise a fresh one (an id-less result with no id-less call
    /// ahead of it in the request).
    pub fn result_id(&mut self, block: &Json) -> (r: String)
        requires
            old(self)@.next < u128::MAX,
        ensures
            (r@, final(self)@) == result_id_of(old(self)@, block@),
            final(self)@.next <= old(self)@.next + 1,
    {
        let explicit = match unless_empty(block.get_str("tool_use_id")) {
            Some(id) => Some(id),
            None => unless_empty(block.get_str("id")),
        };
        match explicit {
            Some(id) => id.to_owned(),
            None => {
                if self.pending.len() == 0 {
                    self.synth()
                } else {
                    let ghost before = self.pending@;
                    let id = self.pending.remove(0);
                    assert(texts(self.pending@) == texts(before).drop_first());
                    id
                }
            },
        }
    }
}

/// The chat tool call of a `tool_use` block.
pub fn tool_use_to_call(block: &Json, ids: &mut IdState) -> (r: Json)
    requires
        old(ids)@.next < u128::MAX,
    ensures
        r@ == call_of(block@, use_id_of(old(ids)@, block@).0),
        final(ids)@ == use_id_of(old(ids)@, block@).1,
        final(ids)@.next <= old(ids)@.next + 1,
        printable(block_input(block@)) ==> json_of_text(arguments_of(block@)) == Some(
            block_input(block@),
        ),
{
    let id = ids.use_id(block);
    let name = owned_or_empty(block.get_str("name"));
    // OpenAI `arguments` is a JSON string; the block's input is an object.
    let arguments = match block.get("input") {
        None => print(&Json::object()),
        Some(Json::Str(s)) => s.clone(),
        Some(other) => print(other),
    };
    Json::object().with("id", Json::Str(id)).with("type", Json::text("function")).with(
        "function",
        Json::object().with("name", Json::Str(name)).with("arguments", Json::Str(arguments)),
    )
}

}
