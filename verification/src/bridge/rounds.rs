//! The execute-then-resend loop's messages: what one round of in-gateway
//! `web_search` adds to the conversation, and what the rounds cost.
use crate::bridge::blocks::{has_type, no_ids, type_is, IdState, IdStateV};
use crate::bridge::request::{empty_turn, is_call, turn_call, turn_text, turn_thinking, Turn, TurnV};
use crate::bridge::response::{choice_message, function_member, usage_json};
use crate::bridge::search::{WebSearchMeta, WebSearchMetaV};
use crate::codec::{json_text, print};
use crate::json::{empty_object, items_view, lemma_items_push, lemma_items_view, Json, JsonV};
use crate::text::{is_empty, or_empty, owned_or_empty, same, trim, trimmed};
use vstd::prelude::*;

verus! {

broadcast use vstd::string::group_string_axioms;

/// Whether a call names the given function.
pub open spec fn calls_by_name(call: JsonV, name: Seq<char>) -> bool {
    match function_member(call, "name"@) {
        Some(v) => v.as_str() == Some(name),
        None => false,
    }
}

/// Whether the first choice still calls the offered web_search tool.
pub open spec fn search_pending(completion: JsonV, meta: WebSearchMetaV) -> bool {
    let calls = choice_message(completion).list("tool_calls"@);
    exists|i: int| 0 <= i < calls.len() && #[trigger] calls_by_name(calls[i], meta.name)
}

/// The turn with one more block of a round's assistant content: thinking
/// and text, blank ones aside, and calls.
pub open spec fn round_step(turn: TurnV, block: JsonV) -> TurnV {
    if type_is(block, "thinking"@) {
        turn_thinking(turn, block)
    } else if type_is(block, "text"@) {
        let t = trimmed(or_empty(block.get_str("text"@)));
        if t.len() > 0 {
            TurnV { text: turn.text.push(t), ..turn }
        } else {
            turn
        }
    } else if is_call(block) {
        turn_call(turn, block)
    } else {
        turn
    }
}

/// The turn that a round's assistant content makes.
pub open spec fn round_turn(blocks: Seq<JsonV>) -> TurnV
    decreases blocks.len(),
{
    if blocks.len() == 0 {
        empty_turn(no_ids())
    } else {
        round_step(round_turn(blocks.drop_last()), blocks.last())
    }
}

/// The chat message of a round's assistant turn.
pub open spec fn round_assistant(turn: TurnV) -> JsonV {
    let text = turn_text(turn);
    let role = empty_object().with("role"@, JsonV::Str("assistant"@));
    let spoken = if text.len() > 0 {
        role.with("content"@, JsonV::Str(text))
    } else {
        role
    };
    if turn.calls.len() > 0 {
        spoken.with("tool_calls"@, JsonV::Array(turn.calls))
    } else {
        spoken
    }
}

/// The tool message of one result: addressed by the outward block's
/// `tool_use_id`, holding the plaintext payload.
pub open spec fn round_result(outward: JsonV, payload: JsonV) -> JsonV {
    empty_object().with("role"@, JsonV::Str("tool"@)).with(
        "tool_call_id"@,
        JsonV::Str(or_empty(outward.get_str("tool_use_id"@))),
    ).with("content"@, JsonV::Str(json_text(payload)))
}

/// The views of result pairs.
pub open spec fn pairs_view(results: Seq<(Json, Json)>) -> Seq<(JsonV, JsonV)> {
    results.map_values(|p: (Json, Json)| (p.0@, p.1@))
}

/// The messages one round adds to the conversation.
pub open spec fn round_messages(blocks: Seq<JsonV>, results: Seq<(JsonV, JsonV)>) -> Seq<JsonV> {
    seq![round_assistant(round_turn(blocks))] + Seq::new(
        results.len(),
        |i: int| round_result(results[i].0, results[i].1),
    )
}

/// The loop-exhaustion marker.
pub open spec fn cap_block() -> JsonV {
    empty_object().with("type"@, JsonV::Str("tool_result"@)).with(
        "tool_use_id"@,
        JsonV::Str("srvtoolu_bridge_cap"@),
    ).with(
        "content"@,
        JsonV::Array(
            seq![
                empty_object().with("type"@, JsonV::Str("tool_result_error"@)).with(
                    "error_code"@,
                    JsonV::Str("max_iterations_exceeded"@),
                ).with(
                    "message"@,
                    JsonV::Str(
                        "the web_search iteration limit was reached; no further searches were executed"@,
                    ),
                ),
            ],
        ),
    ).with("is_error"@, JsonV::Bool(true))
}

/// A token count of a round message's usage; zero where there is none.
pub open spec fn round_count(round: JsonV, key: Seq<char>) -> nat {
    match round.get("usage"@) {
        Some(usage) => match usage.get_u64(key) {
            Some(n) => n as nat,
            None => 0,
        },
        None => 0,
    }
}

/// A token count summed over rounds.
pub open spec fn rounds_total(rounds: Seq<JsonV>, key: Seq<char>) -> nat
    decreases rounds.len(),
{
    if rounds.len() == 0 {
        0
    } else {
        rounds_total(rounds.drop_last(), key) + round_count(rounds.last(), key)
    }
}

/// Whether the sums of a usage fit in 64 bits.
pub open spec fn totals_fit(rounds: Seq<JsonV>) -> bool {
    rounds_total(rounds, "input_tokens"@) <= u64::MAX && rounds_total(rounds, "output_tokens"@)
        <= u64::MAX
}

/// The accumulated usage of rounds; the search counter only where there
/// were searches.
pub open spec fn rounds_usage(rounds: Seq<JsonV>, requests: u64) -> JsonV {
    let usage = usage_json(
        rounds_total(rounds, "input_tokens"@) as int,
        rounds_total(rounds, "output_tokens"@) as int,
    );
    if requests > 0 {
        usage.with(
            "server_tool_use"@,
            empty_object().with("web_search_requests"@, JsonV::Int(requests as int)),
        )
    } else {
        usage
    }
}

/// True while the executor's loop must continue: the upstream response's
/// first-choice `tool_calls` still names the offered web_search tool.
pub fn web_search_pending(completion: &Json, meta: &WebSearchMeta) -> (r: bool)
    ensures
        r == search_pending(completion@, meta@),
{
    let choices = completion.list("choices");
    proof {
        lemma_items_view(choices@);
    }
    if choices.len() == 0 {
        return false;
    }
    let calls = match choices[0].get("message") {
        Some(message) => message.list("tool_calls"),
        None => {
            return false;
        },
    };
    let ghost all = choice_message(completion@).list("tool_calls"@);
    assert(items_view(calls@) == all);
    let mut i: usize = 0;
    while i < calls.len()
        invariant
            i <= calls@.len(),
            items_view(calls@) == all,
            all == choice_message(completion@).list("tool_calls"@),
            forall|j: int| 0 <= j < i ==> !#[trigger] calls_by_name(all[j], meta@.name),
        decreases calls@.len() - i,
    {
        proof {
            lemma_items_view(calls@);
        }
        let named = match calls[i].get("function") {
            Some(f) => match f.get_str("name") {
                Some(name) => same(name, meta.name.as_str()),
                None => false,
            },
            None => false,
        };
        assert(named == calls_by_name(all[i as int], meta@.name));
        if named {
            return true;
        }
        i = i + 1;
    }
    false
}

/// The turn that a round's assistant content makes.
fn read_round(blocks: &[Json]) -> (r: Turn)
    ensures
        exists|ids: IdStateV| #[trigger] r.with_ids(ids) == round_turn(items_view(blocks@)),
{
    let ghost all = items_view(blocks@);
    let mut ids = IdState::new();
    let mut turn = Turn::new();
    let mut i: usize = 0;
    assert(all.take(0) == Seq::<JsonV>::empty());
    while i < blocks.len()
        invariant
            i <= blocks@.len(),
            all == items_view(blocks@),
            turn.with_ids(ids@) == round_turn(all.take(i as int)),
            ids@.next <= i,
        decreases blocks@.len() - i,
    {
        let block = &blocks[i];
        proof {
            lemma_items_view(blocks@);
            assert(all.take(i + 1).drop_last() == all.take(i as int));
            assert(all.take(i + 1).last() == block@);
        }
        let ghost before = turn.with_ids(ids@);
        if has_type(block, "thinking") {
            turn.think(block);
        } else if has_type(block, "text") {
            let raw = owned_or_empty(block.get_str("text"));
            let t = trim(raw.as_str());
            if !is_empty(t) {
                turn.say(t.to_owned());
            }
        } else if has_type(block, "tool_use") || has_type(block, "server_tool_use") {
            turn.call(block, &mut ids);
        }
        assert(turn.with_ids(ids@) == round_step(before, block@));
        i = i + 1;
    }
    assert(all.take(all.len() as int) == all);
    turn
}

/// Fold one executor round back into the chat dialect: the assistant turn
/// (its text + every tool call, client or server) plus a `role: "tool"`
/// message per executed web_search result. The result's `tool_call_id` is
/// the `tool_use_id` the executor carried, and its content is the plaintext
/// payload the model parses (`{"query", "results"}` — the `results` array
/// with snippets, never the opaque outward block).
pub fn web_search_round_messages(
    assistant_content: &[Json],
    results: &[(Json, Json)],
) -> (r: Vec<Json>)
    ensures
        items_view(r@) == round_messages(items_view(assistant_content@), pairs_view(results@)),
{
    let turn = read_round(assistant_content);
    let ghost turn_v = round_turn(items_view(assistant_content@));
    let text = turn.merge();
    proof {
        let ids = choose|ids: IdStateV| #[trigger] turn.with_ids(ids) == turn_v;
        assert(turn_text(turn.with_ids(ids)) == text@);
        lemma_items_view(turn.calls@);
    }
    let role = Json::object().with("role", Json::text("assistant"));
    let spoken = if is_empty(text.as_str()) {
        role
    } else {
        role.with("content", Json::Str(text))
    };
    let assistant = if turn.calls.len() == 0 {
        spoken
    } else {
        spoken.with("tool_calls", Json::Array(turn.calls))
    };
    let mut out: Vec<Json> = Vec::new();
    assert(items_view(out@) == Seq::<JsonV>::empty());
    proof {
        lemma_items_push(out@, assistant);
    }
    out.push(assistant);
    let ghost all = round_messages(items_view(assistant_content@), pairs_view(results@));
    assert(items_view(out@) == all.take(1));
    let mut i: usize = 0;
    while i < results.len()
        invariant
            i <= results@.len(),
            all == round_messages(items_view(assistant_content@), pairs_view(results@)),
            items_view(out@) == all.take(1 + i),
        decreases results@.len() - i,
    {
        let id = owned_or_empty(results[i].0.get_str("tool_use_id"));
        let message = Json::object().with("role", Json::text("tool")).with(
            "tool_call_id",
            Json::Str(id),
        ).with("content", Json::Str(print(&results[i].1)));
        proof {
            lemma_items_push(out@, message);
            assert(pairs_view(results@)[i as int] == (results@[i as int].0@, results@[i as int].1@));
            assert(all[1 + i] == message@);
            assert(all.take(2 + i) == all.take(1 + i).push(all[1 + i]));
        }
        out.push(message);
        i = i + 1;
    }
    assert(all.take(all.len() as int) == all);
    out
}

/// The loop-exhaustion marker: the iteration cap was hit while the model
/// still wanted web_search, so execution stops and the client sees this
/// typed error block instead of a silent stop.
pub fn web_search_cap_block() -> (r: Json)
    ensures
        r@ == cap_block(),
{
    let mut content: Vec<Json> = Vec::new();
    assert(items_view(content@) == Seq::<JsonV>::empty());
    let item = Json::object().with("type", Json::text("tool_result_error")).with(
        "error_code",
        Json::text("max_iterations_exceeded"),
    ).with(
        "message",
        Json::text(
            "the web_search iteration limit was reached; no further searches were executed",
        ),
    );
    proof {
        lemma_items_push(content@, item);
    }
    content.push(item);
    assert(items_view(content@) == seq![item@]);
    Json::object().with("type", Json::text("tool_result")).with(
        "tool_use_id",
        Json::text("srvtoolu_bridge_cap"),
    ).with("content", Json::Array(content)).with("is_error", Json::Bool(true))
}

/// A token count of a round message's usage.
fn count_of(round: &Json, key: &str) -> (r: u64)
    ensures
        r == round_count(round@, key@),
{
    match round.get("usage") {
        Some(usage) => match usage.get_u64(key) {
            Some(n) => n,
            None => 0,
        },
        None => 0,
    }
}

/// A sum over the first rounds is no more than the sum over all.
proof fn lemma_total_monotonic(rounds: Seq<JsonV>, key: Seq<char>, n: int)
    requires
        0 <= n <= rounds.len(),
    ensures
        rounds_total(rounds.take(n), key) <= rounds_total(rounds, key),
    decreases rounds.len() - n,
{
    if n < rounds.len() {
        assert(rounds.take(n + 1).drop_last() == rounds.take(n));
        lemma_total_monotonic(rounds, key, n + 1);
    } else {
        assert(rounds.take(n) == rounds);
    }
}

/// A token count summed over rounds; `None` where the sum does not fit.
fn total(rounds: &[Json], key: &str) -> (r: Option<u64>)
    ensures
        r is Some <==> rounds_total(items_view(rounds@), key@) <= u64::MAX,
        r is Some ==> r->0 == rounds_total(items_view(rounds@), key@),
{
    let ghost all = items_view(rounds@);
    let mut sum: u64 = 0;
    let mut i: usize = 0;
    while i < rounds.len()
        invariant
            i <= rounds@.len(),
            all == items_view(rounds@),
            sum == rounds_total(all.take(i as int), key@),
        decreases rounds@.len() - i,
    {
        let n: u64 = count_of(&rounds[i], key);
        proof {
            lemma_items_view(rounds@);
            assert(all.take(i + 1).drop_last() == all.take(i as int));
            lemma_total_monotonic(all, key@, i + 1);
        }
        match sum.checked_add(n) {
            Some(s) => {
                sum = s;
            },
            None => {
                return None;
            },
        }
        i = i + 1;
    }
    assert(all.take(all.len() as int) == all);
    Some(sum)
}

/// Whether [`web_search_usage`] can sum up these rounds.
pub fn web_search_usage_fits(rounds: &[Json]) -> (r: bool)
    ensures
        r == totals_fit(items_view(rounds@)),
{
    total(rounds, "input_tokens").is_some() && total(rounds, "output_tokens").is_some()
}

/// One round's accumulated usage: the round messages' `input_tokens` and
/// `output_tokens` summed, plus the executor's provider requests under
/// `server_tool_use.web_search_requests` (emitted only when > 0 — the
/// official shape keeps the object absent for search-free rounds).
pub fn web_search_usage(rounds: &[Json], web_search_requests: u64) -> (r: Json)
    requires
        totals_fit(items_view(rounds@)),
    ensures
        r@ == rounds_usage(items_view(rounds@), web_search_requests),
{
    let input: u64 = match total(rounds, "input_tokens") {
        Some(n) => n,
        None => 0,
    };
    let output: u64 = match total(rounds, "output_tokens") {
        Some(n) => n,
        None => 0,
    };
    let usage = Json::object().with("input_tokens", Json::uint(input)).with(
        "output_tokens",
        Json::uint(output),
    );
    if web_search_requests > 0 {
        usage.with(
            "server_tool_use",
            Json::object().with("web_search_requests", Json::uint(web_search_requests)),
        )
    } else {
        usage
    }
}

}
