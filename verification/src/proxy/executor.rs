//! In-gateway `web_search` executor: the request's `web_search` server tool
//! is run here — the model's `tool_use` comes back, the configured provider
//! is called, and the results are folded back into the conversation as a
//! tool message before the round is re-sent. Bounded by
//! `WEB_SEARCH_MAX_ITERATIONS`; per-call `max_uses` and the request's
//! `user_location` ride on the metadata. Every provider failure surfaces as
//! a `web_search_tool_result` error block, never silent.
use crate::bridge::request::{copied, metas, ChatPayload, ChatPayloadV, ToolMeta, ToolMetaV};
use crate::bridge::response::{
    call_name, chat_to_message_with_web_search, choice_message, function_member,
    message_of_completion,
};
use crate::bridge::rounds::{
    cap_block, pairs_view, round_messages, rounds_total, rounds_usage, search_pending, totals_fit,
    web_search_cap_block, web_search_pending, web_search_round_messages, web_search_usage,
    web_search_usage_fits,
};
use crate::bridge::search::{SearchOutcome, WebSearchMeta, WebSearchMetaV};
use crate::buffers::{content, slice_of};
use crate::codec::{json_of_bytes, json_of_text, parse, parse_bytes};
use crate::json::{
    empty_object, items_view, lemma_items_push, lemma_items_view, opt_owned, Json, JsonV,
};
use crate::proxy::retry::is_success;
use crate::text::{non_empty, same, unless_empty};
use bytes::Bytes;
use vstd::prelude::*;

verus! {

broadcast use vstd::string::group_string_axioms;

/// Rounds after which the executor stops.
pub const WEB_SEARCH_MAX_ITERATIONS: u32 = 4;

/// A search that the model called for.
#[derive(Debug)]
pub struct SearchCall {
    pub id: String,
    pub input: Json,
}

/// The view of a [`SearchCall`].
#[verifier::ext_equal]
pub struct SearchCallV {
    pub id: Seq<char>,
    pub input: JsonV,
}

impl View for SearchCall {
    type V = SearchCallV;

    open spec fn view(&self) -> SearchCallV {
        SearchCallV { id: self.id@, input: self.input@ }
    }
}

/// The views of a list of searches.
pub open spec fn search_calls_view(calls: Seq<SearchCall>) -> Seq<SearchCallV> {
    calls.map_values(|c: SearchCall| c@)
}

/// The search of a tool call: its own id or a fixed one, and the JSON in its
/// arguments, null where they are no JSON text.
pub open spec fn search_call(call: JsonV) -> SearchCallV {
    SearchCallV {
        id: match non_empty(call.get_str("id"@)) {
            Some(id) => id,
            None => "srvtoolu_bridge_auto"@,
        },
        input: match function_member(call, "arguments"@) {
            Some(JsonV::Str(raw)) => match json_of_text(raw) {
                Some(v) => v,
                None => JsonV::Null,
            },
            _ => JsonV::Null,
        },
    }
}

/// The searches among tool calls, in order.
pub open spec fn search_calls(calls: Seq<JsonV>, name: Seq<char>) -> Seq<SearchCallV>
    decreases calls.len(),
{
    if calls.len() == 0 {
        Seq::empty()
    } else {
        let head = search_calls(calls.drop_last(), name);
        if call_name(calls.last()) == name {
            head.push(search_call(calls.last()))
        } else {
            head
        }
    }
}

/// The state of the executor between rounds.
#[verifier::ext_equal]
pub struct ExecutorV {
    /// The chat payload of the request.
    pub chat: JsonV,
    pub model: Seq<char>,
    pub tools: Seq<ToolMetaV>,
    pub meta: WebSearchMetaV,
    /// The conversation so far.
    pub messages: Seq<JsonV>,
    /// The usage of each round so far.
    pub rounds: Seq<JsonV>,
    /// The outward result blocks so far.
    pub outward: Seq<JsonV>,
    /// The last completion.
    pub last: Option<JsonV>,
    /// Provider requests so far.
    pub requests: u64,
    /// Rounds so far.
    pub count: u32,
}

/// The executor before the first round.
pub open spec fn executor_start(
    payload: ChatPayloadV,
    model: Seq<char>,
    meta: WebSearchMetaV,
) -> ExecutorV {
    ExecutorV {
        chat: payload.json,
        model,
        tools: payload.tool_meta,
        meta,
        messages: payload.json.list("messages"@),
        rounds: Seq::empty(),
        outward: Seq::empty(),
        last: None,
        requests: 0,
        count: 0,
    }
}

/// The body of the next round.
pub open spec fn round_body(e: ExecutorV) -> JsonV {
    e.chat.with("messages"@, JsonV::Array(e.messages))
}

/// The Anthropic message of a round's completion.
pub open spec fn round_message(e: ExecutorV, completion: JsonV) -> JsonV {
    message_of_completion(completion, e.model, e.tools, Some(e.meta))
}

/// The final message of a round that calls for no search: its usage covers
/// all rounds, and the outward blocks of every search follow its content.
pub open spec fn final_message(e: ExecutorV, completion: JsonV) -> JsonV {
    let message = round_message(e, completion);
    message.with("usage"@, rounds_usage(e.rounds.push(message), e.requests)).with(
        "content"@,
        JsonV::Array(message.list("content"@) + e.outward),
    )
}

/// Provider requests added up; the count stays at its largest value.
pub open spec fn requests_sum(requests: u64, outcomes: Seq<SearchOutcome>) -> u64
    decreases outcomes.len(),
{
    if outcomes.len() == 0 {
        requests
    } else {
        let head = requests_sum(requests, outcomes.drop_last());
        if head + outcomes.last().requests <= u64::MAX {
            (head + outcomes.last().requests) as u64
        } else {
            u64::MAX
        }
    }
}

/// The result pairs of searches.
pub open spec fn outcome_pairs(outcomes: Seq<SearchOutcome>) -> Seq<(JsonV, JsonV)> {
    outcomes.map_values(|o: SearchOutcome| (o.outward@, o.model@))
}

/// The outward blocks of searches.
pub open spec fn outcome_blocks(outcomes: Seq<SearchOutcome>) -> Seq<JsonV> {
    outcomes.map_values(|o: SearchOutcome| o.outward@)
}

/// The executor after a round whose searches were run.
pub open spec fn folded(
    e: ExecutorV,
    completion: JsonV,
    outcomes: Seq<SearchOutcome>,
) -> ExecutorV {
    let message = round_message(e, completion);
    let requests = requests_sum(e.requests, outcomes);
    ExecutorV {
        messages: e.messages + round_messages(message.list("content"@), outcome_pairs(outcomes)),
        rounds: e.rounds.push(
            empty_object().with("usage"@, rounds_usage(seq![message], requests)),
        ),
        outward: e.outward + outcome_blocks(outcomes),
        last: Some(completion),
        requests,
        count: (e.count + 1) as u32,
        ..e
    }
}

/// The message of an executor that ran out of rounds: the last one, with
/// the marker and the outward blocks after its content.
pub open spec fn capped_message(e: ExecutorV) -> JsonV {
    let base = match e.last {
        Some(completion) => round_message(e, completion),
        None => empty_object().with("id"@, JsonV::Str("msg_bridge_cap"@)).with(
            "type"@,
            JsonV::Str("message"@),
        ).with("role"@, JsonV::Str("assistant"@)).with("model"@, JsonV::Str(e.model)).with(
            "stop_reason"@,
            JsonV::Str("tool_use"@),
        ).with("stop_sequence"@, JsonV::Null).with("content"@, JsonV::Array(Seq::empty())),
    };
    base.with(
        "content"@,
        JsonV::Array(base.list("content"@).push(cap_block()) + e.outward),
    ).with("stop_reason"@, JsonV::Str("tool_use"@)).with(
        "usage"@,
        rounds_usage(e.rounds, e.requests),
    )
}

/// What a round's completion leads to.
pub enum RoundStep {
    /// Run these searches, then fold their outcomes in.
    Search(Vec<SearchCall>),
    /// The request is answered with this message.
    Answer(Json),
}

/// What the upstream's answer to a round leads to.
pub enum RoundAnswer {
    /// The round was refused, and so is the request.
    Refused,
    /// A success that is no completion is handed on as it is.
    PassOn,
    /// The completion, and the step it leads to.
    Step(Json, RoundStep),
    /// The token counts cannot be summed up.
    Uncountable,
}

/// The in-gateway search loop of one request.
pub struct Executor {
    chat: Json,
    model: String,
    tools: Vec<ToolMeta>,
    meta: WebSearchMeta,
    messages: Vec<Json>,
    rounds: Vec<Json>,
    outward: Vec<Json>,
    last: Option<Json>,
    requests: u64,
    count: u32,
}

impl View for Executor {
    type V = ExecutorV;

    closed spec fn view(&self) -> ExecutorV {
        ExecutorV {
            chat: self.chat@,
            model: self.model@,
            tools: metas(self.tools@),
            meta: self.meta@,
            messages: items_view(self.messages@),
            rounds: items_view(self.rounds@),
            outward: items_view(self.outward@),
            last: opt_owned(self.last),
            requests: self.requests,
            count: self.count,
        }
    }
}

/// Whether `step` is what a round's completion leads to: its searches where
/// it calls for any, and otherwise the final message.
pub open spec fn is_round_step(e: ExecutorV, completion: JsonV, step: RoundStep) -> bool {
    match step {
        RoundStep::Search(calls) => search_pending(completion, e.meta) && search_calls_view(calls@)
            == search_calls(choice_message(completion).list("tool_calls"@), e.meta.name),
        RoundStep::Answer(m) => !search_pending(completion, e.meta) && m@ == final_message(
            e,
            completion,
        ),
    }
}

/// Whether the token counts of a round that ends the loop exceed what can be
/// summed up.
pub open spec fn is_uncountable(e: ExecutorV, completion: JsonV) -> bool {
    !search_pending(completion, e.meta) && !totals_fit(
        e.rounds.push(round_message(e, completion)),
    )
}

/// Whether `r` is what the upstream's answer to a round leads to.
pub open spec fn is_round_answer(
    e: ExecutorV,
    status: u16,
    parsed: Option<JsonV>,
    r: RoundAnswer,
) -> bool {
    match r {
        RoundAnswer::Refused => !(200 <= status < 300),
        RoundAnswer::PassOn => 200 <= status < 300 && parsed is None,
        RoundAnswer::Step(completion, step) => {
            &&& 200 <= status < 300
            &&& parsed == Some(completion@)
            &&& is_round_step(e, completion@, step)
        },
        RoundAnswer::Uncountable => 200 <= status < 300 && parsed is Some && is_uncountable(
            e,
            parsed->0,
        ),
    }
}

/// Append values.
fn append_all(items: &mut Vec<Json>, more: Vec<Json>)
    ensures
        items_view(final(items)@) == items_view(old(items)@) + items_view(more@),
{
    let ghost start = items_view(items@);
    let ghost all = items_view(more@);
    let mut i: usize = 0;
    assert(start + all.take(0) == start);
    while i < more.len()
        invariant
            i <= more@.len(),
            all == items_view(more@),
            items_view(items@) == start + all.take(i as int),
        decreases more@.len() - i,
    {
        let item = more[i].clone();
        proof {
            lemma_items_view(more@);
            lemma_items_push(items@, item);
            assert(start + all.take(i + 1) == (start + all.take(i as int)).push(item@));
        }
        items.push(item);
        i = i + 1;
    }
    assert(all.take(all.len() as int) == all);
}

/// A copy of the items of an array member.
fn list_copy(v: &Json, key: &str) -> (r: Vec<Json>)
    ensures
        items_view(r@) == v@.list(key@),
{
    match v.get_array(key) {
        Some(items) => copied(items),
        None => {
            let none: Vec<Json> = Vec::new();
            assert(items_view(none@) == Seq::<JsonV>::empty());
            none
        },
    }
}

/// The search of a tool call.
fn read_search(call: &Json) -> (r: SearchCall)
    ensures
        r@ == search_call(call@),
{
    let id = match unless_empty(call.get_str("id")) {
        Some(id) => id.to_owned(),
        None => "srvtoolu_bridge_auto".to_owned(),
    };
    let arguments = match call.get("function") {
        Some(f) => f.get("arguments"),
        None => None,
    };
    let input = match arguments {
        Some(Json::Str(raw)) => match parse(raw.as_str()) {
            Some(v) => v,
            None => Json::Null,
        },
        _ => Json::Null,
    };
    SearchCall { id, input }
}

/// The searches among a completion's tool calls.
fn read_searches(completion: &Json, name: &str) -> (r: Vec<SearchCall>)
    ensures
        search_calls_view(r@) == search_calls(
            choice_message(completion@).list("tool_calls"@),
            name@,
        ),
{
    let ghost all = choice_message(completion@).list("tool_calls"@);
    let mut out: Vec<SearchCall> = Vec::new();
    assert(search_calls_view(out@) == Seq::<SearchCallV>::empty());
    let choices = completion.list("choices");
    proof {
        lemma_items_view(choices@);
    }
    if choices.len() == 0 {
        return out;
    }
    let message = match choices[0].get("message") {
        Some(message) => message,
        None => {
            return out;
        },
    };
    let calls = message.list("tool_calls");
    let mut i: usize = 0;
    assert(all.take(0) == Seq::<JsonV>::empty());
    while i < calls.len()
        invariant
            i <= calls@.len(),
            all == items_view(calls@),
            search_calls_view(out@) == search_calls(all.take(i as int), name@),
        decreases calls@.len() - i,
    {
        let call = &calls[i];
        proof {
            lemma_items_view(calls@);
            assert(all.take(i + 1).drop_last() == all.take(i as int));
            assert(all.take(i + 1).last() == call@);
        }
        let called = match call.get("function") {
            Some(f) => match f.get_str("name") {
                Some(n) => same(n, name),
                None => is_blank(name),
            },
            None => is_blank(name),
        };
        assert(called == (call_name(call@) == name@));
        if called {
            let search = read_search(call);
            assert(search_calls_view(out@.push(search)) == search_calls_view(out@).push(search@));
            out.push(search);
        }
        i = i + 1;
    }
    assert(all.take(all.len() as int) == all);
    out
}

/// Whether a name is the empty one.
fn is_blank(name: &str) -> (r: bool)
    ensures
        r == (name@ == Seq::<char>::empty()),
{
    let r = crate::text::is_empty(name);
    assert(r ==> name@ == Seq::<char>::empty());
    r
}

impl Executor {
    /// Start the loop for a request that offers web_search.
    pub fn start(payload: &ChatPayload, request_model: &str, meta: WebSearchMeta) -> (r: Executor)
        ensures
            r@ == executor_start(payload@, request_model@, meta@),
    {
        let mut tools: Vec<ToolMeta> = Vec::new();
        let ghost all = metas(payload.tool_meta@);
        let mut i: usize = 0;
        assert(metas(tools@) == all.take(0));
        while i < payload.tool_meta.len()
            invariant
                i <= payload.tool_meta@.len(),
                all == metas(payload.tool_meta@),
                metas(tools@) == all.take(i as int),
            decreases payload.tool_meta@.len() - i,
        {
            let m = payload.tool_meta[i].clone();
            assert(metas(tools@.push(m)) == metas(tools@).push(m@));
            assert(all.take(i + 1) == all.take(i as int).push(all[i as int]));
            tools.push(m);
            i = i + 1;
        }
        assert(all.take(all.len() as int) == all);
        let rounds: Vec<Json> = Vec::new();
        let outward: Vec<Json> = Vec::new();
        assert(items_view(rounds@) == Seq::<JsonV>::empty());
        assert(items_view(outward@) == Seq::<JsonV>::empty());
        Executor {
            chat: payload.json.clone(),
            model: request_model.to_owned(),
            tools,
            meta,
            messages: list_copy(&payload.json, "messages"),
            rounds,
            outward,
            last: None,
            requests: 0,
            count: 0,
        }
    }

    /// Whether a round is left.
    pub fn may_run(&self) -> (r: bool)
        ensures
            r == (self@.count < WEB_SEARCH_MAX_ITERATIONS),
    {
        self.count < WEB_SEARCH_MAX_ITERATIONS
    }

    /// The offer's metadata.
    pub fn meta(&self) -> (r: &WebSearchMeta)
        ensures
            r@ == self@.meta,
    {
        &self.meta
    }

    /// The body of the next round.
    pub fn next_body(&self) -> (r: Json)
        ensures
            r@ == round_body(self@),
    {
        self.chat.clone().with("messages", Json::Array(copied(&self.messages)))
    }

    /// The Anthropic message of a round's completion.
    fn message(&self, completion: &Json) -> (r: Json)
        ensures
            r@ == round_message(self@, completion@),
    {
        chat_to_message_with_web_search(
            completion,
            self.model.as_str(),
            self.tools.as_slice(),
            Some(&self.meta),
        )
    }

    /// Whether the token counts of the rounds, this completion's with them,
    /// can be summed up.
    pub fn countable(&self, completion: &Json) -> (r: bool)
        ensures
            r == totals_fit(self@.rounds.push(round_message(self@, completion@))),
    {
        let mut all = copied(&self.rounds);
        let message = self.message(completion);
        proof {
            lemma_items_push(all@, message);
        }
        all.push(message);
        web_search_usage_fits(all.as_slice())
    }

    /// Decide on a round's completion.
    pub fn on_completion(&self, completion: &Json) -> (r: RoundStep)
        requires
            search_pending(completion@, self@.meta) || totals_fit(
                self@.rounds.push(round_message(self@, completion@)),
            ),
        ensures
            is_round_step(self@, completion@, r),
    {
        if web_search_pending(completion, &self.meta) {
            return RoundStep::Search(read_searches(completion, self.meta.name.as_str()));
        }
        // Terminal round: no further web_search calls. The executor's
        // outward result blocks from every executed search ride the content
        // array, so the client sees what ran.
        let message = self.message(completion);
        let mut content = list_copy(&message, "content");
        append_all(&mut content, copied(&self.outward));
        let mut all = copied(&self.rounds);
        let last = message.clone();
        proof {
            lemma_items_push(all@, last);
        }
        all.push(last);
        let usage = web_search_usage(all.as_slice(), self.requests);
        RoundStep::Answer(message.with("usage", usage).with("content", Json::Array(content)))
    }

    /// Decide on a round's completion, if the token counts can be summed up
    /// where that ends the loop.
    pub fn decide(&self, completion: &Json) -> (r: Option<RoundStep>)
        ensures
            match r {
                Some(step) => is_round_step(self@, completion@, step),
                None => is_uncountable(self@, completion@),
            },
    {
        if web_search_pending(completion, &self.meta) || self.countable(completion) {
            Some(self.on_completion(completion))
        } else {
            None
        }
    }

    /// Decide on the upstream's answer to a round.
    pub fn on_answer(&self, status: u16, body: &Bytes) -> (r: RoundAnswer)
        ensures
            is_round_answer(self@, status, json_of_bytes(content(*body)), r),
    {
        self.on_answer_parsed(status, parse_bytes(slice_of(body)))
    }

    /// Decide on the upstream's answer to a round, its body parsed.
    pub fn on_answer_parsed(&self, status: u16, parsed: Option<Json>) -> (r: RoundAnswer)
        ensures
            is_round_answer(self@, status, opt_owned(parsed), r),
    {
        if !is_success(status) {
            return RoundAnswer::Refused;
        }
        match parsed {
            None => RoundAnswer::PassOn,
            Some(completion) => match self.decide(&completion) {
                Some(step) => RoundAnswer::Step(completion, step),
                None => RoundAnswer::Uncountable,
            },
        }
    }

    /// Fold the outcomes of a round's searches back into the conversation.
    pub fn fold(&mut self, completion: Json, outcomes: &Vec<SearchOutcome>)
        requires
            old(self)@.count < WEB_SEARCH_MAX_ITERATIONS,
        ensures
            final(self)@ == folded(old(self)@, completion@, outcomes@),
    {
        let ghost before = self@;
        let message = self.message(&completion);
        let mut results: Vec<(Json, Json)> = Vec::new();
        let mut blocks: Vec<Json> = Vec::new();
        let mut requests: u64 = self.requests;
        let mut i: usize = 0;
        assert(outcomes@.take(0) == Seq::<SearchOutcome>::empty());
        assert(pairs_view(results@) == outcome_pairs(outcomes@.take(0)));
        assert(items_view(blocks@) == outcome_blocks(outcomes@.take(0)));
        while i < outcomes.len()
            invariant
                i <= outcomes@.len(),
                pairs_view(results@) == outcome_pairs(outcomes@.take(i as int)),
                items_view(blocks@) == outcome_blocks(outcomes@.take(i as int)),
                requests == requests_sum(before.requests, outcomes@.take(i as int)),
            decreases outcomes@.len() - i,
        {
            let o = &outcomes[i];
            let pair = (o.outward.clone(), o.model.clone());
            let block = o.outward.clone();
            proof {
                let longer = outcomes@.take(i + 1);
                assert(longer.drop_last() == outcomes@.take(i as int));
                assert(longer.last() == *o);
                lemma_items_push(blocks@, block);
                assert(pairs_view(results@.push(pair)) == pairs_view(results@).push(
                    (pair.0@, pair.1@),
                ));
                assert(outcome_pairs(longer) == outcome_pairs(outcomes@.take(i as int)).push(
                    (o.outward@, o.model@),
                ));
                assert(outcome_blocks(longer) == outcome_blocks(outcomes@.take(i as int)).push(
                    o.outward@,
                ));
            }
            results.push(pair);
            blocks.push(block);
            requests = match requests.checked_add(o.requests as u64) {
                Some(n) => n,
                None => u64::MAX,
            };
            i = i + 1;
        }
        assert(outcomes@.take(outcomes@.len() as int) == outcomes@);
        let content = list_copy(&message, "content");
        let round = web_search_round_messages(content.as_slice(), results.as_slice());
        let mut one: Vec<Json> = Vec::new();
        proof {
            lemma_items_push(one@, message);
            assert(items_view(one@) == Seq::<JsonV>::empty());
            assert(items_view(one@).push(message@) == seq![message@]);
            assert(seq![message@].drop_last() == Seq::<JsonV>::empty());
            assert(rounds_total(seq![message@].drop_last(), "input_tokens"@) == 0);
            assert(rounds_total(seq![message@].drop_last(), "output_tokens"@) == 0);
        }
        one.push(message);
        let usage = web_search_usage(one.as_slice(), requests);
        let entry = Json::object().with("usage", usage);
        append_all(&mut self.messages, round);
        append_all(&mut self.outward, blocks);
        proof {
            lemma_items_push(self.rounds@, entry);
        }
        self.rounds.push(entry);
        self.last = Some(completion);
        self.requests = requests;
        self.count = self.count + 1;
    }

    /// The answer of a loop that ran out of rounds: execution stops and the
    /// client sees the typed marker block instead of a silent cut-off.
    pub fn capped(&self) -> (r: Json)
        requires
            totals_fit(self@.rounds),
        ensures
            r@ == capped_message(self@),
    {
        let base = match &self.last {
            Some(completion) => self.message(completion),
            None => {
                let none: Vec<Json> = Vec::new();
                assert(items_view(none@) == Seq::<JsonV>::empty());
                Json::object().with("id", Json::text("msg_bridge_cap")).with(
                    "type",
                    Json::text("message"),
                ).with("role", Json::text("assistant")).with(
                    "model",
                    Json::text(self.model.as_str()),
                ).with("stop_reason", Json::text("tool_use")).with(
                    "stop_sequence",
                    Json::Null,
                ).with("content", Json::Array(none))
            },
        };
        let mut content = list_copy(&base, "content");
        let marker = web_search_cap_block();
        proof {
            lemma_items_push(content@, marker);
        }
        content.push(marker);
        append_all(&mut content, copied(&self.outward));
        // Every executed call already folded its usage into `rounds`, so no
        // extra round is added here — the last call must not count twice.
        let usage = web_search_usage(self.rounds.as_slice(), self.requests);
        base.with("content", Json::Array(content)).with(
            "stop_reason",
            Json::text("tool_use"),
        ).with("usage", usage)
    }

    /// The answer of a loop that ran out of rounds, if the token counts can be
    /// summed up.
    pub fn give_up(&self) -> (r: Option<Json>)
        ensures
            match r {
                Some(m) => totals_fit(self@.rounds) && m@ == capped_message(self@),
                None => !totals_fit(self@.rounds),
            },
    {
        if web_search_usage_fits(self.rounds.as_slice()) {
            Some(self.capped())
        } else {
            None
        }
    }
}

/// The loop is bounded: every round that is folded in uses one up.
pub proof fn law_search_loop_is_bounded(
    e: ExecutorV,
    completion: JsonV,
    outcomes: Seq<SearchOutcome>,
)
    requires
        e.count < WEB_SEARCH_MAX_ITERATIONS,
    ensures
        folded(e, completion, outcomes).count == e.count + 1,
        folded(e, completion, outcomes).rounds.len() == e.rounds.len() + 1,
        folded(e, completion, outcomes).outward.len() == e.outward.len() + outcomes.len(),
{
}

/// Nothing is silent: every outward block of every search follows the
/// content of the message that answers the request, capped or not.
pub proof fn law_searches_are_shown(e: ExecutorV, completion: JsonV)
    ensures
        final_message(e, completion).list("content"@) == round_message(e, completion).list(
            "content"@,
        ) + e.outward,
        exists|head: Seq<JsonV>|
            #![trigger head + e.outward]
            capped_message(e).list("content"@) == head + e.outward && head.len() > 0 && head.last()
                == cap_block(),
{
    reveal_strlit("content");
    reveal_strlit("stop_reason");
    reveal_strlit("usage");
    assert("content"@.len() == 7 && "stop_reason"@.len() == 11 && "usage"@.len() == 5);
    let base = match e.last {
        Some(completion) => round_message(e, completion),
        None => empty_object().with("id"@, JsonV::Str("msg_bridge_cap"@)).with(
            "type"@,
            JsonV::Str("message"@),
        ).with("role"@, JsonV::Str("assistant"@)).with("model"@, JsonV::Str(e.model)).with(
            "stop_reason"@,
            JsonV::Str("tool_use"@),
        ).with("stop_sequence"@, JsonV::Null).with("content"@, JsonV::Array(Seq::empty())),
    };
    let head = base.list("content"@).push(cap_block());
    assert(capped_message(e).list("content"@) == head + e.outward);
}

}
