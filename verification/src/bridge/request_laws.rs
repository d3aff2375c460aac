//! What becomes of a conversation: every text, thought, call and result of
//! the request stands in the chat messages, in its place and order.
use crate::bridge::blocks::{
    blocks_of, call_of, explicit_result_id, folded, is_result, raw_result, result_id_of,
    result_text, text_block, text_of_block, texts_of_blocks, type_is, use_id_of, IdStateV,
};
use crate::bridge::request::{
    assistant_message, assistant_turn, chat_message, conversation, conversation_step, flushed,
    merged, messages_of, role_of, system_messages, tagged, target_role, tool_message, turn_text,
    user_blocks, user_step, ConversationV, PartialV,
};
use crate::codec::json_text;
use crate::json::{empty_object, JsonV};
use crate::text::{joined, non_empty, or_empty, trimmed, trimmed_end, trimmed_start};
use vstd::prelude::*;

verus! {

/// The members of messages and blocks, told apart.
proof fn lemma_message_keys()
    ensures
        "role"@ != "content"@,
        "role"@ != "tool_call_id"@,
        "content"@ != "tool_call_id"@,
        "role"@ != "tool_calls"@,
        "content"@ != "tool_calls"@,
        "type"@ != "text"@,
        "messages"@ != "system"@,
        "tool"@ != "user"@,
        "tool"@ != "system"@,
        "tool"@ != "assistant"@,
        "user"@ != "system"@,
        "assistant"@ != "user"@,
        "assistant"@ != "system"@,
        "assistant"@ != "developer"@,
        "user"@ != "developer"@,
{
    reveal_strlit("role");
    reveal_strlit("content");
    reveal_strlit("tool_call_id");
    reveal_strlit("tool_calls");
    reveal_strlit("type");
    reveal_strlit("text");
    reveal_strlit("messages");
    reveal_strlit("system");
    reveal_strlit("tool");
    reveal_strlit("user");
    reveal_strlit("assistant");
    reveal_strlit("developer");
    assert("role"@.len() == 4 && "content"@.len() == 7 && "tool_call_id"@.len() == 12);
    assert("tool_calls"@.len() == 10);
    assert("type"@[1] == 'y' && "text"@[1] == 'e');
    assert("messages"@.len() == 8 && "system"@.len() == 6);
    assert("tool"@[0] == 't' && "user"@[0] == 'u');
    assert("tool"@.len() == 4 && "assistant"@.len() == 9 && "user"@.len() == 4);
    assert("assistant"@[0] == 'a' && "developer"@[0] == 'd');
    assert("developer"@.len() == 9);
}

/// The chat messages of a request whose conversation is `raw`.
pub open spec fn sent(body: JsonV, raw: Seq<JsonV>) -> Seq<JsonV> {
    messages_of(body.with("messages"@, JsonV::Array(raw)))
}

/// A message of the request: a role and its content blocks.
pub open spec fn spoken(role: Seq<char>, blocks: Seq<JsonV>) -> JsonV {
    empty_object().with("role"@, JsonV::Str(role)).with("content"@, JsonV::Array(blocks))
}

/// The conversation of the request without its messages' views.
spec fn talk(body: JsonV, raw: Seq<JsonV>) -> ConversationV {
    conversation(system_messages(body), raw)
}

proof fn lemma_sent(body: JsonV, raw: Seq<JsonV>)
    ensures
        sent(body, raw) == talk(body, raw).messages,
{
    lemma_message_keys();
    let b = body.with("messages"@, JsonV::Array(raw));
    assert(b.list("messages"@) == raw);
    assert(b.get("system"@) == body.get("system"@));
}

proof fn lemma_talk_push(body: JsonV, raw: Seq<JsonV>, m: JsonV)
    ensures
        talk(body, raw.push(m)) == conversation_step(talk(body, raw), m),
{
    assert(raw.push(m).drop_last() == raw);
}

/// A piece of what a chat message passes on.
pub enum PieceV {
    /// Text in the speaker's role.
    Said(Seq<char>),
    /// The result of a tool.
    Returned(Seq<char>),
    /// Anything else.
    Other,
}

/// The piece that a chat message passes on for a speaker in `role`.
pub open spec fn piece(message: JsonV, role: Seq<char>) -> PieceV {
    match message.get_str("content"@) {
        Some(text) => if message.get_str("role"@) == Some("tool"@) {
            PieceV::Returned(text)
        } else if message.get_str("role"@) == Some(role) {
            PieceV::Said(text)
        } else {
            PieceV::Other
        },
        None => PieceV::Other,
    }
}

/// The pieces that chat messages pass on, in order.
pub open spec fn carried(messages: Seq<JsonV>, role: Seq<char>) -> Seq<PieceV> {
    messages.map_values(|m: JsonV| piece(m, role))
}

/// The text that stands for a block in a chat message.
pub open spec fn words(block: JsonV) -> Option<Seq<char>> {
    match block.get_str("type"@) {
        Some(t) => if t == "image"@ {
            Some("[image content omitted]"@)
        } else if t == "document"@ {
            Some("[document content omitted]"@)
        } else if t == "redacted_thinking"@ {
            None
        } else if t == "thinking"@ {
            block.get_str("thinking"@)
        } else {
            block.get_str("text"@)
        },
        None => block.get_str("text"@),
    }
}

/// A run of text with one more line.
pub open spec fn with_line(run: Seq<char>, line: Seq<char>) -> Seq<char> {
    run + "\n"@ + line
}

/// The words of blocks that have any, a line each.
pub open spec fn lines(blocks: Seq<JsonV>) -> Option<Seq<char>>
    decreases blocks.len(),
{
    if blocks.len() == 0 {
        None
    } else {
        let before = lines(blocks.drop_last());
        match words(blocks.last()) {
            Some(t) => if t.len() == 0 {
                before
            } else if before is Some {
                Some(with_line(before->0, t))
            } else {
                Some(t)
            },
            None => before,
        }
    }
}

/// What a tool result returns: its text, or its blocks' lines, or its JSON,
/// after a notice where the tool failed; a placeholder where that is empty.
pub open spec fn returned(block: JsonV) -> Seq<char> {
    let plain = match block.get("content"@) {
        None => Seq::empty(),
        Some(JsonV::Str(s)) => s,
        Some(JsonV::Array(items)) => match lines(items) {
            Some(text) => text,
            None => Seq::empty(),
        },
        Some(other) => json_text(other),
    };
    let whole = if block.get("is_error"@) == Some(JsonV::Bool(true)) {
        "tool returned an error: "@ + plain
    } else {
        plain
    };
    if whole.len() == 0 {
        "(no output)"@
    } else {
        whole
    }
}

/// Whether a block's type is that of a tool result.
pub open spec fn brings_result(block: JsonV) -> bool {
    match block.get_str("type"@) {
        Some(t) => "tool_result"@ == t || "_tool_result"@.is_suffix_of(t),
        None => false,
    }
}

/// Pieces whose last, where it is empty text, is left out.
pub open spec fn settled(pieces: Seq<PieceV>) -> Seq<PieceV> {
    if pieces.len() > 0 && pieces.last() == PieceV::Said(Seq::empty()) {
        pieces.drop_last()
    } else {
        pieces
    }
}

/// The pieces with one more text: a run of texts is one piece.
pub open spec fn and_said(pieces: Seq<PieceV>, text: Seq<char>) -> Seq<PieceV> {
    if pieces.len() > 0 && pieces.last() is Said {
        pieces.drop_last().push(PieceV::Said(with_line(pieces.last()->Said_0, text)))
    } else {
        pieces.push(PieceV::Said(text))
    }
}

/// The pieces that the blocks of a user's message bring: texts and results
/// in order, each run of texts a line a block.
pub open spec fn brought(blocks: Seq<JsonV>) -> Seq<PieceV>
    decreases blocks.len(),
{
    if blocks.len() == 0 {
        Seq::empty()
    } else {
        let before = brought(blocks.drop_last());
        let block = blocks.last();
        if brings_result(block) {
            settled(before).push(PieceV::Returned(returned(block)))
        } else {
            match words(block) {
                Some(t) => and_said(before, t),
                None => before,
            }
        }
    }
}

/// The blocks of a message's content in each of its shapes: text, a list
/// whose strings are texts, or one block.
pub open spec fn parts(content: Option<JsonV>) -> Seq<JsonV> {
    match content {
        None => Seq::empty(),
        Some(JsonV::Null) => Seq::empty(),
        Some(JsonV::Str(s)) => seq![plain(s)],
        Some(JsonV::Array(items)) => Seq::new(
            items.len(),
            |i: int|
                match items[i] {
                    JsonV::Str(s) => plain(s),
                    other => other,
                },
        ),
        Some(other) => seq![other],
    }
}

/// A text block.
pub open spec fn plain(s: Seq<char>) -> JsonV {
    empty_object().with("type"@, JsonV::Str("text"@)).with("text"@, JsonV::Str(s))
}

/// The role in which a message of the request that is not the assistant's
/// speaks.
pub open spec fn speaks_as(m: JsonV) -> Seq<char> {
    if m.get_str("role"@) == Some("system"@) || m.get_str("role"@) == Some("developer"@) {
        "system"@
    } else {
        "user"@
    }
}

proof fn lemma_lines(blocks: Seq<JsonV>)
    ensures
        match lines(blocks) {
            Some(text) => texts_of_blocks(blocks).len() > 0 && folded(blocks) == text,
            None => texts_of_blocks(blocks).len() == 0 && folded(blocks).len() == 0,
        },
    decreases blocks.len(),
{
    if blocks.len() > 0 {
        lemma_lines(blocks.drop_last());
        let before = texts_of_blocks(blocks.drop_last());
        match non_empty(text_of_block(blocks.last())) {
            Some(t) => {
                assert(before.push(t).drop_last() == before);
            },
            None => {},
        }
    }
}

proof fn lemma_returned(id: Seq<char>, block: JsonV, role: Seq<char>)
    ensures
        piece(tool_message(id, result_text(block)), role) == PieceV::Returned(returned(block)),
        tool_message(id, result_text(block)).get_str("tool_call_id"@) == Some(id),
{
    lemma_message_keys();
    match block.get("content"@) {
        Some(JsonV::Array(items)) => {
            lemma_lines(items);
        },
        _ => {},
    }
    let whole = if block.get_bool("is_error"@) == Some(true) {
        "tool returned an error: "@ + raw_result(block)
    } else {
        raw_result(block)
    };
    assert(result_text(block) == whole);
}

/// The pieces that a message under way has brought so far.
spec fn so_far(p: PartialV, n: nat, role: Seq<char>) -> Seq<PieceV> {
    let done = carried(p.messages.skip(n as int), role);
    if p.pending.len() > 0 {
        done.push(PieceV::Said(joined(p.pending, "\n"@)))
    } else {
        done
    }
}

proof fn lemma_carried_push(messages: Seq<JsonV>, n: nat, m: JsonV, role: Seq<char>)
    requires
        n <= messages.len(),
    ensures
        carried(messages.push(m).skip(n as int), role) == carried(
            messages.skip(n as int),
            role,
        ).push(piece(m, role)),
{
    assert(messages.push(m).skip(n as int) == messages.skip(n as int).push(m));
    assert(carried(messages.push(m).skip(n as int), role) =~= carried(
        messages.skip(n as int),
        role,
    ).push(piece(m, role)));
}

/// Flushing passes on the run of texts, unless it is empty.
proof fn lemma_flushed(p: PartialV, n: nat, role: Seq<char>)
    requires
        n <= p.messages.len(),
        role != "tool"@,
        p.pending.len() == 0 ==> carried(p.messages.skip(n as int), role).len() == 0 || !(carried(
            p.messages.skip(n as int),
            role,
        ).last() is Said),
    ensures
        n <= flushed(p.messages, p.pending, role).len(),
        p.messages.is_prefix_of(flushed(p.messages, p.pending, role)),
        carried(flushed(p.messages, p.pending, role).skip(n as int), role) == settled(
            so_far(p, n, role),
        ),
{
    lemma_message_keys();
    let text = joined(p.pending, "\n"@);
    let done = carried(p.messages.skip(n as int), role);
    if text.len() > 0 {
        lemma_carried_push(p.messages, n, chat_message(role, text), role);
        assert(piece(chat_message(role, text), role) == PieceV::Said(text));
        assert(so_far(p, n, role).last() == PieceV::Said(text));
    } else {
        assert(text == Seq::<char>::empty());
        if p.pending.len() > 0 {
            assert(done.push(PieceV::Said(text)).drop_last() == done);
        }
    }
}

/// A message under way has brought what its blocks so far bring.
proof fn lemma_user_blocks(c: ConversationV, blocks: Seq<JsonV>, role: Seq<char>)
    requires
        role == "user"@ || role == "system"@,
    ensures
        ({
            let p = user_blocks(c, blocks, role);
            let done = carried(p.messages.skip(c.messages.len() as int), role);
            &&& c.messages.is_prefix_of(p.messages)
            &&& so_far(p, c.messages.len(), role) == brought(blocks)
            &&& done.len() == 0 || !(done.last() is Said)
        }),
    decreases blocks.len(),
{
    lemma_message_keys();
    let n = c.messages.len();
    if blocks.len() > 0 {
        lemma_user_blocks(c, blocks.drop_last(), role);
        let q = user_blocks(c, blocks.drop_last(), role);
        let p = user_step(q, blocks.last(), role);
        let block = blocks.last();
        assert(is_result(block) == brings_result(block));
        assert(text_of_block(block) == words(block));
        if brings_result(block) {
            lemma_flushed(q, n, role);
            let id = result_id_of(q.ids, block).0;
            let message = tool_message(id, result_text(block));
            lemma_returned(id, block, role);
            lemma_carried_push(flushed(q.messages, q.pending, role), n, message, role);
        } else {
            match words(block) {
                Some(t) => {
                    let done = carried(q.messages.skip(n as int), role);
                    assert(q.pending.push(t).drop_last() == q.pending);
                    if q.pending.len() > 0 {
                        let run = joined(q.pending, "\n"@);
                        assert(done.push(PieceV::Said(run)).drop_last() == done);
                        assert(joined(q.pending.push(t), "\n"@) == with_line(run, t));
                    }
                },
                None => {},
            }
        }
    } else {
        assert(c.messages.skip(n as int) == Seq::<JsonV>::empty());
        assert(carried(c.messages.skip(n as int), role) == Seq::<PieceV>::empty());
    }
}

pub proof fn lemma_parts(content: Option<JsonV>)
    ensures
        parts(content) == blocks_of(content),
{
    assert forall|s: Seq<char>| #[trigger] plain(s) == text_block(s) by {}
    match content {
        Some(JsonV::Array(items)) => {
            assert(parts(content) =~= blocks_of(content));
        },
        _ => {},
    }
}

/// No text of a user's turn is lost: the chat messages that a message which
/// is not the assistant's adds carry exactly its texts and its tool results,
/// in order. Texts between two results are one message in the speaker's
/// role, a line a block, and every result is a tool message of its own.
pub proof fn law_user_turns_are_carried_whole(body: JsonV, raw: Seq<JsonV>, m: JsonV)
    requires
        m is Object,
        m.get_str("role"@) != Some("assistant"@),
    ensures
        sent(body, raw).is_prefix_of(sent(body, raw.push(m))),
        carried(sent(body, raw.push(m)).skip(sent(body, raw).len() as int), speaks_as(m))
            == settled(brought(parts(m.get("content"@)))),
{
    lemma_message_keys();
    lemma_sent(body, raw);
    lemma_sent(body, raw.push(m));
    lemma_talk_push(body, raw, m);
    lemma_parts(m.get("content"@));
    let c = talk(body, raw);
    let role = speaks_as(m);
    let blocks = parts(m.get("content"@));
    assert(target_role(role_of(m)) == role);
    lemma_user_blocks(c, blocks, role);
    let p = user_blocks(c, blocks, role);
    lemma_flushed(p, c.messages.len(), role);
}

proof fn lemma_user_blocks_grow(c: ConversationV, blocks: Seq<JsonV>, role: Seq<char>, k: int)
    requires
        0 <= k <= blocks.len(),
    ensures
        user_blocks(c, blocks.take(k), role).messages.is_prefix_of(
            user_blocks(c, blocks, role).messages,
        ),
    decreases blocks.len() - k,
{
    if k == blocks.len() {
        assert(blocks.take(k) == blocks);
    } else {
        lemma_user_blocks_grow(c, blocks, role, k + 1);
        assert(blocks.take(k + 1).drop_last() == blocks.take(k));
    }
}

/// A text block directly before a tool result ends a message in the
/// speaker's role that stands immediately before the result's own.
pub proof fn law_text_stands_before_its_result(
    body: JsonV,
    raw: Seq<JsonV>,
    role: Seq<char>,
    blocks: Seq<JsonV>,
    i: int,
)
    requires
        role != "assistant"@,
        0 < i < blocks.len(),
        blocks[i - 1] is Object && blocks[i] is Object,
        blocks[i - 1].get_str("type"@) == Some("text"@),
        blocks[i - 1].get_str("text"@) is Some,
        blocks[i - 1].get_str("text"@)->0.len() > 0,
        blocks[i].get_str("type"@) == Some("tool_result"@),
    ensures
        exists|j: int|
            sent(body, raw).len() < j < sent(body, raw.push(spoken(role, blocks))).len() && piece(
                #[trigger] sent(body, raw.push(spoken(role, blocks)))[j],
                "user"@,
            ) == PieceV::Returned(returned(blocks[i])) && ({
                let before = piece(
                    sent(body, raw.push(spoken(role, blocks)))[j - 1],
                    speaks_as(spoken(role, blocks)),
                );
                before is Said && blocks[i - 1].get_str("text"@)->0.is_suffix_of(before->Said_0)
            }),
{
    lemma_message_keys();
    let m = spoken(role, blocks);
    let said = speaks_as(m);
    lemma_sent(body, raw);
    lemma_sent(body, raw.push(m));
    lemma_talk_push(body, raw, m);
    let c = talk(body, raw);
    let all = blocks_of(m.get("content"@));
    assert(m.get("content"@) == Some(JsonV::Array(blocks)));
    assert(target_role(role_of(m)) == said);
    assert(all[i] == blocks[i] && all[i - 1] == blocks[i - 1]);
    let t = blocks[i - 1].get_str("text"@)->0;
    let q1 = user_blocks(c, all.take(i - 1), said);
    let q2 = user_blocks(c, all.take(i), said);
    let q3 = user_blocks(c, all.take(i + 1), said);
    assert(all.take(i).drop_last() == all.take(i - 1) && all.take(i).last() == all[i - 1]);
    assert(all.take(i + 1).drop_last() == all.take(i) && all.take(i + 1).last() == all[i]);
    assert(!is_result(all[i - 1]) && text_of_block(all[i - 1]) == Some(t)) by {
        reveal_strlit("text");
        reveal_strlit("image");
        reveal_strlit("document");
        reveal_strlit("redacted_thinking");
        reveal_strlit("thinking");
        reveal_strlit("tool_result");
        reveal_strlit("_tool_result");
        assert("text"@.len() == 4 && "image"@.len() == 5 && "document"@.len() == 8);
        assert("redacted_thinking"@.len() == 17 && "thinking"@.len() == 8);
        assert("tool_result"@.len() == 11 && "_tool_result"@.len() == 12);
    }
    assert(q2.pending == q1.pending.push(t));
    let run = joined(q2.pending, "\n"@);
    assert(t.is_suffix_of(run)) by {
        assert(q2.pending.drop_last() == q1.pending);
        assert(run.skip(run.len() - t.len()) =~= t);
    }
    let held = flushed(q2.messages, q2.pending, said);
    assert(held == q2.messages.push(chat_message(said, run)));
    assert(piece(chat_message(said, run), said) == PieceV::Said(run));
    let id = result_id_of(q2.ids, all[i]).0;
    lemma_returned(id, all[i], "user"@);
    assert(q3.messages == held.push(tool_message(id, result_text(all[i]))));
    lemma_user_blocks(c, all.take(i), said);
    lemma_user_blocks_grow(c, all, said, i + 1);
    let p = user_blocks(c, all, said);
    let out = flushed(p.messages, p.pending, said);
    let j = held.len() as int;
    assert(out[j] == q3.messages[j]);
    assert(out[j - 1] == q3.messages[j - 1]);
    assert(out == sent(body, raw.push(m)));
}

proof fn lemma_user_blocks_split(
    c: ConversationV,
    first: Seq<JsonV>,
    second: Seq<JsonV>,
    role: Seq<char>,
)
    requires
        user_blocks(c, first, role).pending.len() == 0,
    ensures
        ({
            let p = user_blocks(c, first, role);
            user_blocks(c, first + second, role) == user_blocks(
                ConversationV { messages: p.messages, ids: p.ids },
                second,
                role,
            )
        }),
    decreases second.len(),
{
    if second.len() == 0 {
        assert(first + second == first);
        assert(user_blocks(c, first, role).pending == Seq::<Seq<char>>::empty());
    } else {
        assert((first + second).drop_last() == first + second.drop_last());
        lemma_user_blocks_split(c, first, second.drop_last(), role);
    }
}

/// A tool result ends what was said before it: a message with a result
/// among its blocks converts as three messages would, one with the blocks
/// before the result, one with the result alone and one with the rest.
pub proof fn law_results_divide_a_turn(
    body: JsonV,
    raw: Seq<JsonV>,
    role: Seq<char>,
    before: Seq<JsonV>,
    result: JsonV,
    rest: Seq<JsonV>,
)
    requires
        role != "assistant"@,
        result.get_str("type"@) == Some("tool_result"@),
    ensures
        sent(body, raw.push(spoken(role, before + seq![result] + rest))) == sent(
            body,
            raw.push(spoken(role, before)).push(spoken(role, seq![result])).push(
                spoken(role, rest),
            ),
        ),
{
    lemma_message_keys();
    let m = spoken(role, before + seq![result] + rest);
    let m1 = spoken(role, before);
    let m2 = spoken(role, seq![result]);
    let m3 = spoken(role, rest);
    lemma_sent(body, raw.push(m));
    lemma_sent(body, raw.push(m1).push(m2).push(m3));
    lemma_talk_push(body, raw, m);
    lemma_talk_push(body, raw, m1);
    lemma_talk_push(body, raw.push(m1), m2);
    lemma_talk_push(body, raw.push(m1).push(m2), m3);
    let c = talk(body, raw);
    let said = target_role(role);
    let b1 = blocks_of(m1.get("content"@));
    let b2 = blocks_of(m2.get("content"@));
    let b3 = blocks_of(m3.get("content"@));
    assert(m.get("content"@) == Some(JsonV::Array(before + seq![result] + rest)));
    assert(m1.get("content"@) == Some(JsonV::Array(before)));
    assert(m2.get("content"@) == Some(JsonV::Array(seq![result])));
    assert(m3.get("content"@) == Some(JsonV::Array(rest)));
    assert(blocks_of(m.get("content"@)) =~= (b1 + b2) + b3);
    assert(b2 =~= seq![result]);
    assert((b1 + b2).drop_last() =~= b1 && (b1 + b2).last() == result);
    assert(is_result(result));
    assert(user_blocks(c, b1 + b2, said).pending.len() == 0);
    lemma_user_blocks_split(c, b1 + b2, b3, said);
    let c1 = conversation_step(c, m1);
    assert(role_of(m) == role && role_of(m1) == role && role_of(m2) == role && role_of(m3)
        == role);
    let c2 = conversation_step(c1, m2);
    assert(b2.drop_last() =~= Seq::<JsonV>::empty());
    let p0 = user_blocks(c1, b2.drop_last(), said);
    assert(p0 == (PartialV { messages: c1.messages, pending: Seq::empty(), ids: c1.ids }));
    assert(joined(Seq::<Seq<char>>::empty(), "\n"@).len() == 0);
    let p = user_blocks(c, b1 + b2, said);
    assert(user_blocks(c1, b2, said) == user_step(p0, result, said));
    assert(p == user_step(user_blocks(c, b1, said), result, said));
    assert(c2.messages == p.messages && c2.ids == p.ids);
}

/// A chat message: a role and a text.
pub open spec fn says(role: Seq<char>, text: Seq<char>) -> JsonV {
    JsonV::Object(map!["role"@ => JsonV::Str(role), "content"@ => JsonV::Str(text)])
}

/// A conversation starts with the system prompt, in a message of its own: a
/// text as it stands, blocks a line each. Without a prompt it starts empty.
pub proof fn law_system_prompt_comes_first(body: JsonV)
    ensures
        match body.get("system"@) {
            None => sent(body, Seq::empty()).len() == 0,
            Some(JsonV::Null) => sent(body, Seq::empty()).len() == 0,
            Some(JsonV::Str(s)) => sent(body, Seq::empty()) == seq![says("system"@, s)],
            Some(JsonV::Array(items)) => match lines(items) {
                Some(text) => sent(body, Seq::empty()) == seq![says("system"@, text)],
                None => sent(body, Seq::empty()).len() == 0,
            },
            Some(other) => sent(body, Seq::empty()) == seq![says("system"@, json_text(other))],
        },
{
    lemma_message_keys();
    lemma_sent(body, Seq::empty());
    assert forall|t: Seq<char>| #[trigger] chat_message("system"@, t) == says("system"@, t) by {
        lemma_says("system"@, t);
    }
    match body.get("system"@) {
        Some(JsonV::Array(items)) => {
            lemma_lines(items);
            lemma_lines_stay(items);
        },
        _ => {},
    }
}

/// Lines are never empty.
proof fn lemma_lines_stay(blocks: Seq<JsonV>)
    ensures
        lines(blocks) is Some ==> lines(blocks)->0.len() > 0,
    decreases blocks.len(),
{
    if blocks.len() > 0 {
        lemma_lines_stay(blocks.drop_last());
    }
}

proof fn lemma_says(role: Seq<char>, text: Seq<char>)
    ensures
        chat_message(role, text) == says(role, text),
{
    lemma_message_keys();
    assert(chat_message(role, text)->Object_0 =~= says(role, text)->Object_0);
}

/// A message that is a bare text is the user's, as it stands; one that is
/// neither a text nor an object adds nothing.
pub proof fn law_bare_messages(body: JsonV, raw: Seq<JsonV>, m: JsonV)
    requires
        !(m is Object),
    ensures
        sent(body, raw.push(m)) == match m {
            JsonV::Str(text) => sent(body, raw).push(says("user"@, text)),
            _ => sent(body, raw),
        },
{
    lemma_sent(body, raw);
    lemma_sent(body, raw.push(m));
    lemma_talk_push(body, raw, m);
    match m {
        JsonV::Str(text) => {
            lemma_says("user"@, text);
        },
        _ => {},
    }
}

/// A result that names its call is addressed to that call.
pub proof fn law_results_keep_their_address(
    body: JsonV,
    raw: Seq<JsonV>,
    role: Seq<char>,
    result: JsonV,
    id: Seq<char>,
)
    requires
        role != "assistant"@,
        result.get_str("type"@) == Some("tool_result"@),
        result.get_str("tool_use_id"@) == Some(id),
        id.len() > 0,
    ensures
        sent(body, raw.push(spoken(role, seq![result]))) == sent(body, raw).push(
            JsonV::Object(
                map![
                    "role"@ => JsonV::Str("tool"@),
                    "tool_call_id"@ => JsonV::Str(id),
                    "content"@ => JsonV::Str(returned(result)),
                ],
            ),
        ),
{
    lemma_message_keys();
    let m = spoken(role, seq![result]);
    lemma_sent(body, raw);
    lemma_sent(body, raw.push(m));
    lemma_talk_push(body, raw, m);
    let c = talk(body, raw);
    let blocks = blocks_of(m.get("content"@));
    assert(m.get("content"@) == Some(JsonV::Array(seq![result])));
    assert(blocks =~= seq![result]);
    assert(role_of(m) == role);
    let said = target_role(role);
    assert(blocks.drop_last() =~= Seq::<JsonV>::empty());
    let p0 = user_blocks(c, blocks.drop_last(), said);
    assert(joined(Seq::<Seq<char>>::empty(), "\n"@).len() == 0);
    assert(user_blocks(c, blocks, said) == user_step(p0, result, said));
    lemma_returned(id, result, "user"@);
    let message = tool_message(id, result_text(result));
    assert(message->Object_0 =~= map![
        "role"@ => JsonV::Str("tool"@),
        "tool_call_id"@ => JsonV::Str(id),
        "content"@ => JsonV::Str(returned(result)),
    ]);
}

/// Whether a block is a call of a tool.
pub open spec fn calls(block: JsonV) -> bool {
    block.get_str("type"@) == Some("tool_use"@) || block.get_str("type"@) == Some(
        "server_tool_use"@,
    )
}

/// The calls among an assistant's blocks, in order.
pub open spec fn called(blocks: Seq<JsonV>) -> Seq<JsonV>
    decreases blocks.len(),
{
    if blocks.len() == 0 {
        Seq::empty()
    } else if calls(blocks.last()) {
        called(blocks.drop_last()).push(blocks.last())
    } else {
        called(blocks.drop_last())
    }
}

/// The thoughts among an assistant's blocks, in order and in tags, blank
/// ones aside.
pub open spec fn thought(blocks: Seq<JsonV>) -> Seq<Seq<char>>
    decreases blocks.len(),
{
    if blocks.len() == 0 {
        Seq::empty()
    } else {
        let before = thought(blocks.drop_last());
        match blocks.last().get_str("thinking"@) {
            Some(t) => if blocks.last().get_str("type"@) == Some("thinking"@) && trimmed(t).len()
                > 0 {
                before.push("<thinking>"@ + trimmed(t) + "</thinking>"@)
            } else {
                before
            },
            None => before,
        }
    }
}

/// The texts among an assistant's blocks, in order.
pub open spec fn uttered(blocks: Seq<JsonV>) -> Seq<Seq<char>>
    decreases blocks.len(),
{
    if blocks.len() == 0 {
        Seq::empty()
    } else {
        let before = uttered(blocks.drop_last());
        match words(blocks.last()) {
            Some(t) => if calls(blocks.last()) || blocks.last().get_str("type"@) == Some(
                "thinking"@,
            ) {
                before
            } else {
                before.push(t)
            },
            None => before,
        }
    }
}

/// Texts put on top of one another, a line each, from the first that is not
/// empty.
pub open spec fn stacked(chunks: Seq<Seq<char>>) -> Seq<char>
    decreases chunks.len(),
{
    if chunks.len() == 0 {
        Seq::empty()
    } else if stacked(chunks.drop_last()).len() == 0 {
        chunks.last()
    } else {
        with_line(stacked(chunks.drop_last()), chunks.last())
    }
}

/// Whether a chat tool call is that of a block: its id where the block has
/// one, its name, and its input as text.
pub open spec fn same_call(call: JsonV, block: JsonV) -> bool {
    &&& block.get_str("id"@) is Some && block.get_str("id"@)->0.len() > 0 ==> call.get_str("id"@)
        == block.get_str("id"@)
    &&& call.get_str("type"@) == Some("function"@)
    &&& call.get("function"@) is Some
    &&& call.get("function"@)->0.get_str("name"@) == match block.get_str("name"@) {
        Some(name) => Some(name),
        None => Some(Seq::empty()),
    }
    &&& call.get("function"@)->0.get_str("arguments"@) == match block.get("input"@) {
        Some(JsonV::Str(s)) => Some(s),
        Some(input) => Some(json_text(input)),
        None => Some(json_text(JsonV::Object(Map::empty()))),
    }
}

pub proof fn lemma_same_call(id: Seq<char>, block: JsonV)
    requires
        block.get_str("id"@) is Some && block.get_str("id"@)->0.len() > 0 ==> Some(id)
            == block.get_str("id"@),
    ensures
        same_call(call_of(block, id), block),
        call_of(block, id).get_str("id"@) == Some(id),
{
    reveal_strlit("id");
    reveal_strlit("type");
    reveal_strlit("function");
    reveal_strlit("name");
    reveal_strlit("arguments");
    assert("id"@.len() == 2 && "type"@.len() == 4 && "function"@.len() == 8);
    assert("name"@.len() == 4 && "arguments"@.len() == 9);
}

pub proof fn lemma_stacked(chunks: Seq<Seq<char>>)
    ensures
        stacked(chunks) == merged(chunks),
    decreases chunks.len(),
{
    if chunks.len() > 0 {
        lemma_stacked(chunks.drop_last());
    }
}

proof fn lemma_assistant_turn(blocks: Seq<JsonV>, ids: IdStateV)
    ensures
        ({
            let turn = assistant_turn(blocks, ids);
            &&& turn.thinking.map_values(|t: Seq<char>| tagged(t)) == thought(blocks)
            &&& turn.text == uttered(blocks)
            &&& turn.calls.len() == called(blocks).len()
            &&& forall|k: int|
                0 <= k < turn.calls.len() ==> same_call(#[trigger] turn.calls[k], called(blocks)[k])
        }),
    decreases blocks.len(),
{
    if blocks.len() > 0 {
        lemma_assistant_turn(blocks.drop_last(), ids);
        let before = assistant_turn(blocks.drop_last(), ids);
        let turn = assistant_turn(blocks, ids);
        let block = blocks.last();
        assert(text_of_block(block) == words(block));
        assert("tool_use"@ != "thinking"@ && "server_tool_use"@ != "thinking"@
            && "redacted_thinking"@ != "thinking"@ && "redacted_thinking"@ != "image"@
            && "redacted_thinking"@ != "document"@) by {
            reveal_strlit("image");
            reveal_strlit("document");
            reveal_strlit("tool_use");
            reveal_strlit("server_tool_use");
            reveal_strlit("thinking");
            reveal_strlit("redacted_thinking");
            assert("tool_use"@[1] == 'o' && "thinking"@[1] == 'h');
            assert("thinking"@.len() == 8 && "server_tool_use"@.len() == 15);
            assert("redacted_thinking"@.len() == 17 && "image"@.len() == 5);
            assert("document"@.len() == 8);
        }
        if calls(block) {
            lemma_same_call(use_id_of(before.ids, block).0, block);
        } else if type_is(block, "thinking"@) {
            let t = trimmed(or_empty(block.get_str("thinking"@)));
            if block.get_str("thinking"@) is None {
                assert(t.len() == 0) by {
                    assert(trimmed_start(Seq::<char>::empty()).len() == 0);
                    assert(trimmed_end(trimmed_start(Seq::<char>::empty())).len() == 0);
                }
            }
            if t.len() > 0 {
                assert(before.thinking.push(t).map_values(|t: Seq<char>| tagged(t))
                    =~= before.thinking.map_values(|t: Seq<char>| tagged(t)).push(tagged(t)));
            }
        }
    } else {
        assert(Seq::<Seq<char>>::empty().map_values(|t: Seq<char>| tagged(t))
            =~= Seq::<Seq<char>>::empty());
    }
}

/// An assistant's turn is kept whole, in one message: its thoughts in tags
/// and then its texts, and every one of its tool calls, in order. A turn
/// without any of these adds nothing.
pub proof fn law_assistant_turns_are_carried_whole(body: JsonV, raw: Seq<JsonV>, m: JsonV)
    requires
        m is Object,
        m.get_str("role"@) == Some("assistant"@),
    ensures
        ({
            let before = sent(body, raw);
            let after = sent(body, raw.push(m));
            let blocks = parts(m.get("content"@));
            let text = stacked(thought(blocks) + uttered(blocks));
            let asked = called(blocks);
            if text.len() == 0 && asked.len() == 0 {
                after == before
            } else {
                &&& after.len() == before.len() + 1
                &&& before.is_prefix_of(after)
                &&& after.last().get_str("role"@) == Some("assistant"@)
                &&& after.last().get("content"@) == Some(
                    if text.len() == 0 {
                        JsonV::Null
                    } else {
                        JsonV::Str(text)
                    },
                )
                &&& after.last().get("tool_calls"@) is None <==> asked.len() == 0
                &&& after.last().list("tool_calls"@).len() == asked.len()
                &&& forall|k: int|
                    0 <= k < asked.len() ==> same_call(
                        #[trigger] after.last().list("tool_calls"@)[k],
                        asked[k],
                    )
            }
        }),
{
    lemma_message_keys();
    lemma_sent(body, raw);
    lemma_sent(body, raw.push(m));
    lemma_talk_push(body, raw, m);
    lemma_parts(m.get("content"@));
    let c = talk(body, raw);
    let blocks = parts(m.get("content"@));
    lemma_assistant_turn(blocks, c.ids);
    lemma_stacked(thought(blocks) + uttered(blocks));
    let turn = assistant_turn(blocks, c.ids);
    assert(turn_text(turn) == stacked(thought(blocks) + uttered(blocks)));
    assert(assistant_message(turn) is Some ==> assistant_message(turn)->0.list("tool_calls"@)
        == turn.calls);
}

/// What is sent never depends on what follows, and is never taken back:
/// messages are converted one after the other.
pub proof fn law_messages_follow_in_order(body: JsonV, raw: Seq<JsonV>, m: JsonV)
    ensures
        sent(body, raw).is_prefix_of(sent(body, raw.push(m))),
{
    match m {
        JsonV::Object(_) => {
            if m.get_str("role"@) == Some("assistant"@) {
                law_assistant_turns_are_carried_whole(body, raw, m);
            } else {
                law_user_turns_are_carried_whole(body, raw, m);
            }
        },
        _ => {
            law_bare_messages(body, raw, m);
        },
    }
}

/// The ids that idless calls leave waiting.
proof fn lemma_idless_calls(blocks: Seq<JsonV>, ids: IdStateV)
    requires
        forall|k: int|
            0 <= k < blocks.len() ==> calls(#[trigger] blocks[k]) && non_empty(
                blocks[k].get_str("id"@),
            ) is None,
    ensures
        ({
            let turn = assistant_turn(blocks, ids);
            &&& turn.calls.len() == blocks.len()
            &&& turn.ids.pending.len() == ids.pending.len() + blocks.len()
            &&& ids.pending.is_prefix_of(turn.ids.pending)
            &&& forall|k: int|
                0 <= k < blocks.len() ==> (#[trigger] turn.calls[k]).get_str("id"@) == Some(
                    turn.ids.pending[ids.pending.len() + k],
                )
        }),
    decreases blocks.len(),
{
    if blocks.len() > 0 {
        let head = blocks.drop_last();
        assert forall|k: int| 0 <= k < head.len() implies calls(#[trigger] head[k]) && non_empty(
            head[k].get_str("id"@),
        ) is None by {
            assert(head[k] == blocks[k]);
        }
        lemma_idless_calls(head, ids);
        let before = assistant_turn(head, ids);
        let block = blocks.last();
        assert(calls(blocks[blocks.len() - 1]));
        lemma_same_call(use_id_of(before.ids, block).0, block);
    }
}

/// Idless results claim the waiting ids in order.
proof fn lemma_idless_results(c: ConversationV, blocks: Seq<JsonV>, role: Seq<char>)
    requires
        blocks.len() <= c.ids.pending.len(),
        forall|k: int|
            0 <= k < blocks.len() ==> (#[trigger] blocks[k]).get_str("type"@) == Some(
                "tool_result"@,
            ) && explicit_result_id(blocks[k]) is None,
    ensures
        ({
            let p = user_blocks(c, blocks, role);
            &&& p.pending.len() == 0
            &&& p.messages.len() == c.messages.len() + blocks.len()
            &&& c.messages.is_prefix_of(p.messages)
            &&& p.ids.pending == c.ids.pending.skip(blocks.len() as int)
            &&& forall|k: int|
                0 <= k < blocks.len() ==> (#[trigger] p.messages[c.messages.len() + k]).get_str(
                    "tool_call_id"@,
                ) == Some(c.ids.pending[k])
        }),
    decreases blocks.len(),
{
    assert(joined(Seq::<Seq<char>>::empty(), "\n"@).len() == 0);
    if blocks.len() > 0 {
        let head = blocks.drop_last();
        assert forall|k: int| 0 <= k < head.len() implies (#[trigger] head[k]).get_str("type"@)
            == Some("tool_result"@) && explicit_result_id(head[k]) is None by {
            assert(head[k] == blocks[k]);
        }
        lemma_idless_results(c, head, role);
        let q = user_blocks(c, head, role);
        assert(q.pending =~= Seq::<Seq<char>>::empty());
        let block = blocks.last();
        assert(blocks[blocks.len() - 1].get_str("type"@) == Some("tool_result"@));
        assert(is_result(block));
        let id = result_id_of(q.ids, block).0;
        assert(id == c.ids.pending[blocks.len() - 1]);
        lemma_returned(id, block, role);
        let p = user_blocks(c, blocks, role);
        assert(p == user_step(q, block, role));
        assert(q.ids.pending.drop_first() =~= c.ids.pending.skip(blocks.len() as int));
        assert forall|k: int| 0 <= k < blocks.len() implies (#[trigger] p.messages[c.messages.len()
            + k]).get_str("tool_call_id"@) == Some(c.ids.pending[k]) by {
            if k < head.len() {
                assert(p.messages[c.messages.len() + k] == q.messages[c.messages.len() + k]);
            }
        }
    } else {
        assert(c.ids.pending.skip(0) =~= c.ids.pending);
    }
}

/// Calls without ids and the results that answer them without naming them
/// meet: the `k`th result is addressed to the `k`th call.
pub proof fn law_idless_results_answer_their_calls(
    body: JsonV,
    asked: Seq<JsonV>,
    answers: Seq<JsonV>,
)
    requires
        asked.len() > 0,
        answers.len() <= asked.len(),
        forall|k: int|
            0 <= k < asked.len() ==> calls(#[trigger] asked[k]) && asked[k].get_str("id"@) is None,
        forall|k: int|
            0 <= k < answers.len() ==> (#[trigger] answers[k]).get_str("type"@) == Some(
                "tool_result"@,
            ) && answers[k].get_str("tool_use_id"@) is None && answers[k].get_str("id"@) is None,
    ensures
        ({
            let all = sent(
                body,
                seq![spoken("assistant"@, asked), spoken("user"@, answers)],
            );
            let n = sent(body, Seq::empty()).len() as int;
            &&& all.len() == n + 1 + answers.len()
            &&& all[n].list("tool_calls"@).len() == asked.len()
            &&& forall|k: int|
                0 <= k < answers.len() ==> (#[trigger] all[n + 1 + k]).get_str("tool_call_id"@)
                    is Some && all[n + 1 + k].get_str("tool_call_id"@) == all[n].list(
                    "tool_calls"@,
                )[k].get_str("id"@)
        }),
{
    lemma_message_keys();
    let none = Seq::<JsonV>::empty();
    let m1 = spoken("assistant"@, asked);
    let m2 = spoken("user"@, answers);
    assert(seq![m1, m2] =~= none.push(m1).push(m2));
    lemma_sent(body, none);
    lemma_sent(body, none.push(m1).push(m2));
    lemma_talk_push(body, none, m1);
    lemma_talk_push(body, none.push(m1), m2);
    let c0 = talk(body, none);
    let c1 = talk(body, none.push(m1));
    let c2 = talk(body, none.push(m1).push(m2));
    assert(m1.get("content"@) == Some(JsonV::Array(asked)));
    assert(m2.get("content"@) == Some(JsonV::Array(answers)));
    assert forall|k: int| 0 <= k < asked.len() implies asked[k] is Object by {
        assert(calls(asked[k]));
    }
    assert forall|k: int| 0 <= k < answers.len() implies answers[k] is Object by {
        assert(answers[k].get_str("type"@) == Some("tool_result"@));
    }
    assert(blocks_of(m1.get("content"@)) =~= asked);
    assert(blocks_of(m2.get("content"@)) =~= answers);
    lemma_idless_calls(asked, c0.ids);
    let turn = assistant_turn(asked, c0.ids);
    assert(assistant_message(turn) is Some);
    assert(assistant_message(turn)->0.list("tool_calls"@) == turn.calls);
    assert(role_of(m2) == "user"@);
    lemma_idless_results(c1, answers, "user"@);
    assert(joined(Seq::<Seq<char>>::empty(), "\n"@).len() == 0);
    let p = user_blocks(c1, answers, "user"@);
    assert(p.pending =~= Seq::<Seq<char>>::empty());
    assert(c2.messages == p.messages);
    let n = c0.messages.len() as int;
    assert(c1.messages.len() == n + 1);
    assert(c2.messages[n] == c1.messages[n]);
    assert forall|k: int| 0 <= k < answers.len() implies (#[trigger] c2.messages[n + 1
        + k]).get_str("tool_call_id"@) is Some && c2.messages[n + 1 + k].get_str("tool_call_id"@)
        == c2.messages[n].list("tool_calls"@)[k].get_str("id"@) by {
        assert(p.messages[c1.messages.len() + k] == c2.messages[n + 1 + k]);
        assert(turn.calls[k].get_str("id"@) == Some(turn.ids.pending[k]));
    }
}

}
