//! What the search loop makes of a conversation: rounds are only added,
//! every search is answered in place, and nothing is counted twice.
use crate::bridge::blocks::type_is;
use crate::bridge::request::{tagged, turn_text, ChatPayloadV};
use crate::bridge::request_laws::{
    called, calls, lemma_same_call, lemma_stacked, same_call, stacked, thought,
};
use crate::bridge::response::{choice_message, message_of_completion};
use crate::bridge::response_laws::{counted, law_message_members, name_of};
use crate::bridge::rounds::{
    cap_block, round_messages, round_result, round_turn, rounds_total, rounds_usage,
    search_pending, totals_fit,
};
use crate::bridge::search::{SearchOutcome, WebSearchMetaV};
use crate::codec::{json_of_text, json_text};
use crate::json::{empty_object, JsonV};
use crate::proxy::executor::{
    capped_message, executor_start, final_message, folded, outcome_pairs, requests_sum, round_body,
    is_round_answer, round_message, search_call, search_calls, ExecutorV, RoundAnswer, RoundStep,
};
use crate::text::{or_empty, trimmed, trimmed_end, trimmed_start};
use vstd::prelude::*;

verus! {

/// The members of chat messages and answers, told apart.
proof fn lemma_round_keys()
    ensures
        "role"@ != "content"@,
        "role"@ != "tool_calls"@,
        "role"@ != "tool_call_id"@,
        "content"@ != "tool_calls"@,
        "content"@ != "tool_call_id"@,
        "usage"@ != "content"@,
        "stop_reason"@ != "content"@,
        "stop_reason"@ != "usage"@,
        "input_tokens"@ != "output_tokens"@,
        "input_tokens"@ != "server_tool_use"@,
        "output_tokens"@ != "server_tool_use"@,
{
    reveal_strlit("role");
    reveal_strlit("content");
    reveal_strlit("tool_calls");
    reveal_strlit("tool_call_id");
    reveal_strlit("usage");
    reveal_strlit("stop_reason");
    reveal_strlit("input_tokens");
    reveal_strlit("output_tokens");
    reveal_strlit("server_tool_use");
    assert("role"@.len() == 4 && "content"@.len() == 7 && "tool_calls"@.len() == 10);
    assert("tool_call_id"@.len() == 12 && "usage"@.len() == 5 && "stop_reason"@.len() == 11);
    assert("input_tokens"@.len() == 12 && "output_tokens"@.len() == 13);
    assert("server_tool_use"@.len() == 15);
}

/// The texts among a round's blocks, in order and trimmed, blank ones aside.
pub open spec fn voiced(blocks: Seq<JsonV>) -> Seq<Seq<char>>
    decreases blocks.len(),
{
    if blocks.len() == 0 {
        Seq::empty()
    } else {
        let before = voiced(blocks.drop_last());
        match blocks.last().get_str("text"@) {
            Some(t) => if blocks.last().get_str("type"@) == Some("text"@) && trimmed(t).len() > 0 {
                before.push(trimmed(t))
            } else {
                before
            },
            None => before,
        }
    }
}

proof fn lemma_round_turn(blocks: Seq<JsonV>)
    ensures
        ({
            let turn = round_turn(blocks);
            &&& turn.thinking.map_values(|t: Seq<char>| tagged(t)) == thought(blocks)
            &&& turn.text == voiced(blocks)
            &&& turn.calls.len() == called(blocks).len()
            &&& forall|k: int|
                0 <= k < turn.calls.len() ==> same_call(#[trigger] turn.calls[k], called(blocks)[k])
        }),
    decreases blocks.len(),
{
    if blocks.len() > 0 {
        lemma_round_turn(blocks.drop_last());
        let before = round_turn(blocks.drop_last());
        let block = blocks.last();
        assert("tool_use"@ != "thinking"@ && "server_tool_use"@ != "thinking"@ && "text"@
            != "thinking"@ && "text"@ != "tool_use"@ && "text"@ != "server_tool_use"@) by {
            reveal_strlit("tool_use");
            reveal_strlit("server_tool_use");
            reveal_strlit("thinking");
            reveal_strlit("text");
            assert("tool_use"@[1] == 'o' && "thinking"@[1] == 'h');
            assert("thinking"@.len() == 8 && "server_tool_use"@.len() == 15);
            assert("text"@.len() == 4 && "tool_use"@.len() == 8);
        }
        let none = Seq::<char>::empty();
        assert(trimmed(none).len() == 0) by {
            assert(trimmed_start(none).len() == 0);
            assert(trimmed_end(trimmed_start(none)).len() == 0);
        }
        if type_is(block, "thinking"@) {
            let t = trimmed(or_empty(block.get_str("thinking"@)));
            if t.len() > 0 {
                assert(before.thinking.push(t).map_values(|t: Seq<char>| tagged(t))
                    =~= before.thinking.map_values(|t: Seq<char>| tagged(t)).push(tagged(t)));
            }
        } else if type_is(block, "text"@) {
        } else if calls(block) {
            lemma_same_call(
                crate::bridge::blocks::use_id_of(before.ids, block).0,
                block,
            );
        }
    } else {
        assert(Seq::<Seq<char>>::empty().map_values(|t: Seq<char>| tagged(t))
            =~= Seq::<Seq<char>>::empty());
    }
}

/// Folding a round only appends: the messages before it stand unchanged
/// before those after it, and what follows them is the assistant's turn of
/// that round, with its thoughts, texts and calls, and one tool message for
/// each outcome, in order, addressed to its search and holding its payload.
pub proof fn law_rounds_are_only_added(
    e: ExecutorV,
    completion: JsonV,
    outcomes: Seq<SearchOutcome>,
)
    ensures
        ({
            let after = folded(e, completion, outcomes).messages;
            let n = e.messages.len() as int;
            let blocks = message_of_completion(completion, e.model, e.tools, Some(e.meta)).list(
                "content"@,
            );
            let text = stacked(thought(blocks) + voiced(blocks));
            let asked = called(blocks);
            &&& e.messages.is_prefix_of(after)
            &&& after.len() == n + 1 + outcomes.len()
            &&& after[n].get_str("role"@) == Some("assistant"@)
            &&& after[n].get("content"@) == if text.len() > 0 {
                Some(JsonV::Str(text))
            } else {
                None
            }
            &&& after[n].list("tool_calls"@).len() == asked.len()
            &&& forall|k: int|
                0 <= k < asked.len() ==> same_call(
                    #[trigger] after[n].list("tool_calls"@)[k],
                    asked[k],
                )
            &&& forall|i: int|
                0 <= i < outcomes.len() ==> after[n + 1 + i] == JsonV::Object(
                    map![
                        "role"@ => JsonV::Str("tool"@),
                        "tool_call_id"@ => JsonV::Str(
                            match (#[trigger] outcomes[i]).outward@.get_str("tool_use_id"@) {
                                Some(id) => id,
                                None => Seq::empty(),
                            },
                        ),
                        "content"@ => JsonV::Str(json_text(outcomes[i].model@)),
                    ],
                )
        }),
{
    lemma_round_keys();
    let after = folded(e, completion, outcomes).messages;
    let n = e.messages.len() as int;
    let blocks = message_of_completion(completion, e.model, e.tools, Some(e.meta)).list(
        "content"@,
    );
    let round = round_messages(blocks, outcome_pairs(outcomes));
    assert(after == e.messages + round);
    lemma_round_turn(blocks);
    lemma_stacked(thought(blocks) + voiced(blocks));
    let turn = round_turn(blocks);
    assert(turn_text(turn) == stacked(thought(blocks) + voiced(blocks)));
    assert(after[n] == round[0]);
    assert(after[n].list("tool_calls"@) =~= turn.calls);
    assert forall|i: int| 0 <= i < outcomes.len() implies after[n + 1 + i] == JsonV::Object(
        map![
            "role"@ => JsonV::Str("tool"@),
            "tool_call_id"@ => JsonV::Str(
                match (#[trigger] outcomes[i]).outward@.get_str("tool_use_id"@) {
                    Some(id) => id,
                    None => Seq::empty(),
                },
            ),
            "content"@ => JsonV::Str(json_text(outcomes[i].model@)),
        ],
    ) by {
        assert(after[n + 1 + i] == round[1 + i]);
        assert(round[1 + i] == round_result(outcomes[i].outward@, outcomes[i].model@));
        assert(round[1 + i]->Object_0 =~= map![
            "role"@ => JsonV::Str("tool"@),
            "tool_call_id"@ => JsonV::Str(
                match outcomes[i].outward@.get_str("tool_use_id"@) {
                    Some(id) => id,
                    None => Seq::empty(),
                },
            ),
            "content"@ => JsonV::Str(json_text(outcomes[i].model@)),
        ]);
    }
}

/// The body of a round is the request's own but for its messages, and those
/// are the conversation so far: at the start the request's, and no round
/// changes another member.
pub proof fn law_round_bodies_keep_the_request(
    payload: ChatPayloadV,
    model: Seq<char>,
    meta: WebSearchMetaV,
    e: ExecutorV,
    completion: JsonV,
    outcomes: Seq<SearchOutcome>,
    key: Seq<char>,
)
    ensures
        round_body(e).get("messages"@) == Some(JsonV::Array(e.messages)),
        key != "messages"@ ==> round_body(e).get(key) == e.chat.get(key),
        executor_start(payload, model, meta).messages == payload.json.list("messages"@),
        key != "messages"@ ==> round_body(executor_start(payload, model, meta)).get(key)
            == payload.json.get(key),
        key != "messages"@ ==> round_body(folded(e, completion, outcomes)).get(key) == round_body(
            e,
        ).get(key),
        folded(e, completion, outcomes).meta == e.meta,
        folded(e, completion, outcomes).model == e.model,
        folded(e, completion, outcomes).tools == e.tools,
        executor_start(payload, model, meta).meta == meta,
        executor_start(payload, model, meta).model == model,
        executor_start(payload, model, meta).tools == payload.tool_meta,
{
}

/// The provider requests of outcomes.
pub open spec fn asked_for(outcomes: Seq<SearchOutcome>) -> nat
    decreases outcomes.len(),
{
    if outcomes.len() == 0 {
        0
    } else {
        asked_for(outcomes.drop_last()) + outcomes.last().requests as nat
    }
}

proof fn lemma_requests(requests: u64, outcomes: Seq<SearchOutcome>)
    ensures
        requests_sum(requests, outcomes) == if requests + asked_for(outcomes) <= u64::MAX {
            requests + asked_for(outcomes)
        } else {
            u64::MAX as int
        },
    decreases outcomes.len(),
{
    if outcomes.len() > 0 {
        lemma_requests(requests, outcomes.drop_last());
    }
}

/// A round is counted once: its tokens in a record of its own, its provider
/// requests in the sum, up to the largest number there is, and its outward
/// blocks after those of earlier rounds.
pub proof fn law_rounds_are_counted_once(
    e: ExecutorV,
    completion: JsonV,
    outcomes: Seq<SearchOutcome>,
)
    ensures
        ({
            let after = folded(e, completion, outcomes);
            let usage = after.rounds.last().get("usage"@);
            &&& e.rounds.is_prefix_of(after.rounds)
            &&& after.rounds.len() == e.rounds.len() + 1
            &&& usage is Some
            &&& usage->0.get("input_tokens"@) == Some(
                JsonV::Int(counted(completion, "prompt_tokens"@) as int),
            )
            &&& usage->0.get("output_tokens"@) == Some(
                JsonV::Int(counted(completion, "completion_tokens"@) as int),
            )
            &&& e.requests + asked_for(outcomes) <= u64::MAX ==> after.requests == e.requests
                + asked_for(outcomes)
            &&& e.requests + asked_for(outcomes) > u64::MAX ==> after.requests == u64::MAX
            &&& after.last == Some(completion)
            &&& e.outward.is_prefix_of(after.outward)
            &&& after.outward.len() == e.outward.len() + outcomes.len()
            &&& forall|i: int|
                0 <= i < outcomes.len() ==> after.outward[e.outward.len() + i] == (
                #[trigger] outcomes[i]).outward@
        }),
{
    lemma_round_keys();
    lemma_requests(e.requests, outcomes);
    law_message_members(completion, e.model, e.tools, Some(e.meta));
    let message = round_message(e, completion);
    let one = seq![message];
    assert(one.drop_last() =~= Seq::<JsonV>::empty());
    assert(rounds_total(one.drop_last(), "input_tokens"@) == 0);
    assert(rounds_total(one.drop_last(), "output_tokens"@) == 0);
    assert(one.last() == message);
    lemma_message_counts(e, completion);
    let after = folded(e, completion, outcomes);
    assert(after.rounds.last() == empty_object().with(
        "usage"@,
        rounds_usage(one, after.requests),
    ));
}

proof fn lemma_message_counts(e: ExecutorV, completion: JsonV)
    ensures
        crate::bridge::rounds::round_count(round_message(e, completion), "input_tokens"@)
            == counted(completion, "prompt_tokens"@),
        crate::bridge::rounds::round_count(round_message(e, completion), "output_tokens"@)
            == counted(completion, "completion_tokens"@),
{
    lemma_round_keys();
    law_message_members(completion, e.model, e.tools, Some(e.meta));
}

/// The sum of a count over records of rounds.
pub open spec fn summed(rounds: Seq<JsonV>, key: Seq<char>) -> nat
    decreases rounds.len(),
{
    if rounds.len() == 0 {
        0
    } else {
        summed(rounds.drop_last(), key) + match rounds.last().get("usage"@) {
            Some(usage) => match usage.get_u64(key) {
                Some(n) => n as nat,
                None => 0,
            },
            None => 0,
        }
    }
}

proof fn lemma_summed(rounds: Seq<JsonV>, key: Seq<char>)
    ensures
        summed(rounds, key) == rounds_total(rounds, key),
    decreases rounds.len(),
{
    if rounds.len() > 0 {
        lemma_summed(rounds.drop_last(), key);
    }
}

/// Whether a usage tells these counts, with the searches where there were
/// any.
pub open spec fn tells(usage: Option<JsonV>, input: nat, output: nat, requests: u64) -> bool {
    &&& usage is Some
    &&& usage->0.get("input_tokens"@) == Some(JsonV::Int(input as int))
    &&& usage->0.get("output_tokens"@) == Some(JsonV::Int(output as int))
    &&& if requests > 0 {
        usage->0.get("server_tool_use"@) is Some && usage->0.get("server_tool_use"@)->0.get(
            "web_search_requests"@,
        ) == Some(JsonV::Int(requests as int))
    } else {
        usage->0.get("server_tool_use"@) is None
    }
}

/// The message that answers the request is the last completion's, with the
/// tokens of all rounds and its own summed up, the searches counted, and the
/// outward blocks after its content.
pub proof fn law_answers_sum_up_the_rounds(e: ExecutorV, completion: JsonV, key: Seq<char>)
    ensures
        ({
            let m = final_message(e, completion);
            let message = message_of_completion(completion, e.model, e.tools, Some(e.meta));
            &&& tells(
                m.get("usage"@),
                summed(e.rounds, "input_tokens"@) + counted(completion, "prompt_tokens"@) as nat,
                summed(e.rounds, "output_tokens"@) + counted(
                    completion,
                    "completion_tokens"@,
                ) as nat,
                e.requests,
            )
            &&& m.get("content"@) == Some(JsonV::Array(message.list("content"@) + e.outward))
            &&& key != "usage"@ && key != "content"@ ==> m.get(key) == message.get(key)
        }),
{
    lemma_round_keys();
    lemma_summed(e.rounds, "input_tokens"@);
    lemma_summed(e.rounds, "output_tokens"@);
    lemma_message_counts(e, completion);
    let message = round_message(e, completion);
    assert(e.rounds.push(message).drop_last() =~= e.rounds);
}

/// A loop that ran out of rounds is answered with the last completion's
/// message, the marker and all outward blocks after its content, for more
/// tools to be used; the rounds are summed up, none twice.
pub proof fn law_capped_answers_sum_up_the_rounds(e: ExecutorV, completion: JsonV, key: Seq<char>)
    requires
        e.last == Some(completion),
    ensures
        ({
            let m = capped_message(e);
            let message = message_of_completion(completion, e.model, e.tools, Some(e.meta));
            &&& tells(
                m.get("usage"@),
                summed(e.rounds, "input_tokens"@),
                summed(e.rounds, "output_tokens"@),
                e.requests,
            )
            &&& m.get("content"@) == Some(
                JsonV::Array(message.list("content"@).push(cap_block()) + e.outward),
            )
            &&& m.get_str("stop_reason"@) == Some("tool_use"@)
            &&& key != "usage"@ && key != "content"@ && key != "stop_reason"@ ==> m.get(key)
                == message.get(key)
        }),
{
    lemma_round_keys();
    lemma_summed(e.rounds, "input_tokens"@);
    lemma_summed(e.rounds, "output_tokens"@);
}

/// The calls of the tool of the given name, in order.
pub open spec fn wanted(calls: Seq<JsonV>, name: Seq<char>) -> Seq<JsonV>
    decreases calls.len(),
{
    if calls.len() == 0 {
        Seq::empty()
    } else if name_of(calls.last()) == name {
        wanted(calls.drop_last(), name).push(calls.last())
    } else {
        wanted(calls.drop_last(), name)
    }
}

/// What a call asks to search, as JSON; null where it is none.
pub open spec fn asks(call: JsonV) -> JsonV {
    match call.get("function"@) {
        Some(function) => match function.get_str("arguments"@) {
            Some(raw) => match json_of_text(raw) {
                Some(v) => v,
                None => JsonV::Null,
            },
            None => JsonV::Null,
        },
        None => JsonV::Null,
    }
}

/// Every call of the search is run, in order, under its own id and with its
/// own arguments, and no other call is.
pub proof fn law_every_search_is_run(calls: Seq<JsonV>, name: Seq<char>)
    ensures
        search_calls(calls, name).len() == wanted(calls, name).len(),
        forall|k: int|
            0 <= k < wanted(calls, name).len() ==> {
                let call = wanted(calls, name)[k];
                let search = #[trigger] search_calls(calls, name)[k];
                &&& call.get_str("id"@) is Some && call.get_str("id"@)->0.len() > 0 ==> Some(
                    search.id,
                ) == call.get_str("id"@)
                &&& search.input == asks(call)
            },
    decreases calls.len(),
{
    if calls.len() > 0 {
        law_every_search_is_run(calls.drop_last(), name);
    }
}

proof fn lemma_wanted(calls: Seq<JsonV>, name: Seq<char>)
    ensures
        wanted(calls, name).len() > 0 <==> exists|i: int|
            0 <= i < calls.len() && name_of(#[trigger] calls[i]) == name,
    decreases calls.len(),
{
    if calls.len() > 0 {
        let head = calls.drop_last();
        lemma_wanted(head, name);
        if name_of(calls.last()) == name {
            assert(name_of(calls[calls.len() - 1]) == name);
        } else {
            if exists|i: int| 0 <= i < head.len() && name_of(#[trigger] head[i]) == name {
                let i = choose|i: int| 0 <= i < head.len() && name_of(#[trigger] head[i]) == name;
                assert(name_of(calls[i]) == name);
            }
            if exists|i: int| 0 <= i < calls.len() && name_of(#[trigger] calls[i]) == name {
                let i = choose|i: int| 0 <= i < calls.len() && name_of(#[trigger] calls[i]) == name;
                assert(name_of(head[i]) == name);
            }
        }
    }
}

/// The loop goes on exactly while the first choice calls the search.
pub proof fn law_the_loop_goes_on_while_it_searches(
    completion: JsonV,
    meta: WebSearchMetaV,
    said: JsonV,
)
    requires
        meta.name.len() > 0,
        completion.list("choices"@).len() > 0,
        completion.list("choices"@)[0].get("message"@) == Some(said),
    ensures
        search_pending(completion, meta) <==> wanted(said.list("tool_calls"@), meta.name).len() > 0,
{
    let calls = said.list("tool_calls"@);
    assert(choice_message(completion) == said);
    lemma_wanted(calls, meta.name);
    if search_pending(completion, meta) {
        let i = choose|i: int|
            0 <= i < calls.len() && #[trigger] crate::bridge::rounds::calls_by_name(
                calls[i],
                meta.name,
            );
        assert(name_of(calls[i]) == meta.name);
    }
    if exists|i: int| 0 <= i < calls.len() && name_of(#[trigger] calls[i]) == meta.name {
        let i = choose|i: int| 0 <= i < calls.len() && name_of(#[trigger] calls[i]) == meta.name;
        assert(crate::bridge::rounds::calls_by_name(calls[i], meta.name));
    }
}

/// A round's answer is decided by upstream's: a refused round refuses the
/// request, a success that is no completion is handed on, and a completion
/// leads to its searches while it calls for any, or else to the answer that
/// sums the rounds up; only sums that no number holds stop that.
pub proof fn law_round_answers_are_decided(
    e: ExecutorV,
    status: u16,
    parsed: Option<JsonV>,
    r: RoundAnswer,
)
    requires
        is_round_answer(e, status, parsed, r),
    ensures
        r is Refused <==> !(200 <= status < 300),
        r is PassOn <==> 200 <= status < 300 && parsed is None,
        r matches RoundAnswer::Step(completion, step) ==> parsed == Some(completion@) && (
        search_pending(completion@, e.meta) <==> step is Search),
        200 <= status < 300 && parsed is Some && search_pending(parsed->0, e.meta) ==> r is Step,
        r matches RoundAnswer::Step(completion, RoundStep::Answer(m)) ==> m@ == final_message(
            e,
            parsed->0,
        ),
        r matches RoundAnswer::Step(completion, RoundStep::Search(calls)) ==> calls@.len()
            == wanted(choice_message(parsed->0).list("tool_calls"@), e.meta.name).len(),
        r is Uncountable ==> summed(e.rounds, "input_tokens"@) + counted(
            parsed->0,
            "prompt_tokens"@,
        ) > u64::MAX || summed(e.rounds, "output_tokens"@) + counted(
            parsed->0,
            "completion_tokens"@,
        ) > u64::MAX,
{
    match r {
        RoundAnswer::Step(completion, RoundStep::Search(calls)) => {
            law_every_search_is_run(choice_message(parsed->0).list("tool_calls"@), e.meta.name);
            assert(crate::proxy::executor::search_calls_view(calls@).len() == calls@.len());
        },
        RoundAnswer::Uncountable => {
            let message = round_message(e, parsed->0);
            assert(e.rounds.push(message).drop_last() =~= e.rounds);
            lemma_summed(e.rounds, "input_tokens"@);
            lemma_summed(e.rounds, "output_tokens"@);
            lemma_message_counts(e, parsed->0);
        },
        _ => {},
    }
}

/// A search whose call has no id runs under one of the gateway's own.
pub proof fn law_idless_searches(call: JsonV)
    requires
        call.get_str("id"@) is None || call.get_str("id"@)->0.len() == 0,
    ensures
        search_call(call).id == "srvtoolu_bridge_auto"@,
        search_call(call).input == asks(call),
{
}

/// Sums can be told exactly when a 64-bit number holds both of them.
pub proof fn law_countable_rounds(rounds: Seq<JsonV>, requests: u64)
    ensures
        totals_fit(rounds) <==> summed(rounds, "input_tokens"@) <= u64::MAX && summed(
            rounds,
            "output_tokens"@,
        ) <= u64::MAX,
        tells(
            Some(rounds_usage(rounds, requests)),
            summed(rounds, "input_tokens"@),
            summed(rounds, "output_tokens"@),
            requests,
        ),
{
    lemma_round_keys();
    lemma_summed(rounds, "input_tokens"@);
    lemma_summed(rounds, "output_tokens"@);
}

/// The marker of a loop that ran out of rounds is a failed tool result that
/// says so.
pub proof fn law_the_cap_is_marked(key: Seq<char>)
    ensures
        cap_block().get_str("type"@) == Some("tool_result"@),
        cap_block().get_str("tool_use_id"@) == Some("srvtoolu_bridge_cap"@),
        cap_block().get("is_error"@) == Some(JsonV::Bool(true)),
        cap_block().list("content"@).len() == 1,
        cap_block().list("content"@)[0].get_str("type"@) == Some("tool_result_error"@),
        cap_block().list("content"@)[0].get_str("error_code"@) == Some("max_iterations_exceeded"@),
        cap_block().get(key) is Some ==> key == "type"@ || key == "tool_use_id"@ || key
            == "content"@ || key == "is_error"@,
{
    reveal_strlit("type");
    reveal_strlit("tool_use_id");
    reveal_strlit("content");
    reveal_strlit("is_error");
    reveal_strlit("error_code");
    reveal_strlit("message");
    assert("type"@.len() == 4 && "tool_use_id"@.len() == 11 && "content"@.len() == 7);
    assert("is_error"@.len() == 8 && "error_code"@.len() == 10 && "message"@.len() == 7);
}

}
