//! In-gateway `web_search` execution for the Messages bridge.
//!
//! The gateway runs the model's `web_search` calls itself — the search
//! provider is an operator-injected endpoint from the config store (the
//! default is the keyless Bing RSS feed) — then re-sends the conversation
//! with the results folded in as tool messages, bounded by an iteration
//! cap. Provider failures surface as `web_search_tool_result` error blocks;
//! nothing is silent.
//!
//! `encrypted_content` matches the official wire shape (an opaque,
//! prefixed base64url blob) but is a synthetic identity marker, the same
//! as the synthetic thinking signatures: the model actually parses the
//! plaintext `results` payload the gateway builds for the tool message.
use crate::bridge::feed::{hits_from, hits_of_json, hits_view, SearchHitV};
use crate::calendar::{utc_text, utc_time};
use crate::codec::{json_of_text, json_text, print};
use crate::config::SearchFormat;
use crate::digest::{base64_text, base64_url_safe_no_pad};
use crate::json::{empty_object, items_view, lemma_items_push, opt_owned, Json, JsonV};
use crate::text::{
    concat, concat3, contains_char, decimal, decimal_text, is_empty, non_empty, join, joined, opt_str,
    opt_text, or_empty, owned_or_empty, texts, trim, trimmed,
};
use vstd::utf8::encode_utf8;
use vstd::prelude::*;

pub use crate::bridge::feed::{parse_json, parse_rss, SearchHit};

verus! {

broadcast use vstd::string::group_string_axioms;

/// The web_search offer's execution metadata, carried from the request
/// transform into the execute-then-resend loop.
#[derive(Debug)]
pub struct WebSearchMeta {
    /// The name the offer reached the upstream under.
    pub name: String,
    /// Per-request call cap (the offer's `max_uses`); None = unbounded by
    /// the offer (the iteration cap still applies).
    pub max_uses: Option<u32>,
    /// The offer's `user_location` (city/region/country), folded into the
    /// query as a suffix.
    pub user_location: Option<Json>,
}

/// The view of a [`WebSearchMeta`].
#[verifier::ext_equal]
pub struct WebSearchMetaV {
    pub name: Seq<char>,
    pub max_uses: Option<u32>,
    pub user_location: Option<JsonV>,
}

impl View for WebSearchMeta {
    type V = WebSearchMetaV;

    open spec fn view(&self) -> WebSearchMetaV {
        WebSearchMetaV {
            name: self.name@,
            max_uses: self.max_uses,
            user_location: opt_owned(self.user_location),
        }
    }
}

/// The view of an optional offer.
pub open spec fn opt_search(o: Option<WebSearchMeta>) -> Option<WebSearchMetaV> {
    match o {
        Some(m) => Some(m@),
        None => None,
    }
}

/// The view of an optional borrowed offer.
pub open spec fn opt_search_ref(o: Option<&WebSearchMeta>) -> Option<WebSearchMetaV> {
    match o {
        Some(m) => Some(m@),
        None => None,
    }
}


/// Query length the provider search accepts (beyond it the call fails with
/// `query_too_long` instead of hitting the endpoint).
pub const MAX_QUERY_LEN: usize = 512;

/// The trimmed text under a key of the input.
pub open spec fn trimmed_member(input: JsonV, key: Seq<char>) -> Seq<char> {
    trimmed(or_empty(input.get_str(key)))
}

/// The query of a call's input: the first of the documented keys that holds
/// a text that is not blank.
pub open spec fn query_in(input: JsonV) -> Seq<char> {
    if trimmed_member(input, "query"@).len() > 0 {
        trimmed_member(input, "query"@)
    } else if trimmed_member(input, "q"@).len() > 0 {
        trimmed_member(input, "q"@)
    } else {
        trimmed_member(input, "search_query"@)
    }
}

/// The list with a text, unless that is empty.
pub open spec fn with_text(parts: Seq<Seq<char>>, t: Seq<char>) -> Seq<Seq<char>> {
    if t.len() > 0 {
        parts.push(t)
    } else {
        parts
    }
}

/// The parts of a location that are not blank: city, region, country.
pub open spec fn location_parts(location: JsonV) -> Seq<Seq<char>> {
    with_text(
        with_text(
            with_text(Seq::empty(), trimmed_member(location, "city"@)),
            trimmed_member(location, "region"@),
        ),
        trimmed_member(location, "country"@),
    )
}

/// The query with the location as a suffix.
pub open spec fn located(query: Seq<char>, location: Option<JsonV>) -> Seq<char> {
    match location {
        None => query,
        Some(location) => {
            let parts = location_parts(location);
            if parts.len() == 0 {
                query
            } else {
                query + " "@ + joined(parts, " "@)
            }
        },
    }
}

/// Whether a byte is an unreserved character of RFC 3986.
pub open spec fn unreserved(b: u8) -> bool {
    ||| 0x41 <= b <= 0x5a
    ||| 0x61 <= b <= 0x7a
    ||| 0x30 <= b <= 0x39
    ||| b == 0x2d
    ||| b == 0x2e
    ||| b == 0x5f
    ||| b == 0x7e
}

/// The upper-case hexadecimal digit of a four-bit value.
pub open spec fn upper_hex(v: int) -> char {
    if v < 10 {
        ('0' as u32 + v) as char
    } else {
        ('A' as u32 + (v - 10)) as char
    }
}

/// Bytes percent-encoded, unreserved ones aside.
pub open spec fn percent_encoded(bytes: Seq<u8>) -> Seq<char>
    decreases bytes.len(),
{
    if bytes.len() == 0 {
        Seq::empty()
    } else {
        let head = percent_encoded(bytes.drop_last());
        let b = bytes.last();
        if unreserved(b) {
            head.push(b as char)
        } else {
            head.push('%').push(upper_hex(b as int / 16)).push(upper_hex(b as int % 16))
        }
    }
}

/// The provider URL of a query.
pub open spec fn search_url(base: Seq<char>, format: SearchFormat, query: Seq<char>) -> Seq<char> {
    let sep = if base.contains('?') {
        "&"@
    } else {
        "?"@
    };
    let url = base + sep + "q="@ + percent_encoded(encode_utf8(query));
    match format {
        SearchFormat::Rss => url + "&format=rss"@,
        SearchFormat::Json => url,
    }
}

/// The opaque blob of a payload.
pub open spec fn encrypted(payload: JsonV) -> Seq<char> {
    "nimsearch_"@ + base64_text(encode_utf8(json_text(payload)))
}

/// A result block that holds an error.
pub open spec fn error_result(id: Seq<char>, code: Seq<char>, message: Seq<char>) -> JsonV {
    empty_object().with("type"@, JsonV::Str("web_search_tool_result"@)).with(
        "tool_use_id"@,
        JsonV::Str(id),
    ).with(
        "content"@,
        JsonV::Array(
            seq![
                empty_object().with("type"@, JsonV::Str("web_search_tool_result_error"@)).with(
                    "error_code"@,
                    JsonV::Str(code),
                ).with("message"@, JsonV::Str(message)),
            ],
        ),
    ).with("is_error"@, JsonV::Bool(true))
}

/// The payload the model sees for an error.
pub open spec fn error_payload(code: Seq<char>, query: Seq<char>) -> JsonV {
    empty_object().with("error"@, JsonV::Str(code)).with("query"@, JsonV::Str(query))
}

/// An optional text as a value.
pub open spec fn text_or_null(t: Option<Seq<char>>) -> JsonV {
    match t {
        Some(s) => JsonV::Str(s),
        None => JsonV::Null,
    }
}

/// The blob of a hit.
pub open spec fn hit_blob(query: Seq<char>, hit: SearchHitV, at: Seq<char>) -> Seq<char> {
    encrypted(
        empty_object().with("query"@, JsonV::Str(query)).with("url"@, JsonV::Str(hit.url)).with(
            "title"@,
            JsonV::Str(hit.title),
        ).with("snippet"@, JsonV::Str(hit.snippet)).with(
            "page_age"@,
            text_or_null(hit.page_age),
        ).with("retrieved_at"@, JsonV::Str(at)),
    )
}

/// A hit as the client sees it.
pub open spec fn outward_hit(query: Seq<char>, hit: SearchHitV, at: Seq<char>) -> JsonV {
    empty_object().with("type"@, JsonV::Str("web_search_result"@)).with(
        "url"@,
        JsonV::Str(hit.url),
    ).with("title"@, JsonV::Str(hit.title)).with(
        "encrypted_content"@,
        JsonV::Str(hit_blob(query, hit, at)),
    ).with_some(
        "page_age"@,
        match hit.page_age {
            Some(age) => Some(JsonV::Str(age)),
            None => None,
        },
    )
}

/// A hit as the model sees it.
pub open spec fn model_hit(query: Seq<char>, hit: SearchHitV, at: Seq<char>) -> JsonV {
    empty_object().with("url"@, JsonV::Str(hit.url)).with("title"@, JsonV::Str(hit.title)).with(
        "snippet"@,
        JsonV::Str(hit.snippet),
    ).with("page_age"@, text_or_null(hit.page_age)).with(
        "encrypted_content"@,
        JsonV::Str(hit_blob(query, hit, at)),
    ).with("retrieved_at"@, JsonV::Str(at))
}

/// The hits that have a url.
pub open spec fn linked(hits: Seq<SearchHitV>) -> Seq<SearchHitV>
    decreases hits.len(),
{
    if hits.len() == 0 {
        Seq::empty()
    } else if hits.last().url.len() > 0 {
        linked(hits.drop_last()).push(hits.last())
    } else {
        linked(hits.drop_last())
    }
}

/// The hits that are passed on: the first ones with a url, at least one
/// where there is one.
pub open spec fn shown(hits: Seq<SearchHitV>, max_results: u32) -> Seq<SearchHitV> {
    let n: int = if max_results > 0 {
        max_results as int
    } else {
        1
    };
    let all = linked(hits);
    if all.len() <= n {
        all
    } else {
        all.take(n)
    }
}

/// The hits in a provider's body.
pub open spec fn hits_in_body(format: SearchFormat, body: Seq<char>) -> Seq<SearchHitV> {
    match format {
        SearchFormat::Rss => hits_from(body, 0),
        SearchFormat::Json => hits_of_json(json_of_text(body)),
    }
}

/// The result block of a search that was answered.
pub open spec fn outward_result(
    id: Seq<char>,
    query: Seq<char>,
    hits: Seq<SearchHitV>,
    at: Seq<char>,
) -> JsonV {
    empty_object().with("type"@, JsonV::Str("web_search_tool_result"@)).with(
        "tool_use_id"@,
        JsonV::Str(id),
    ).with(
        "content"@,
        JsonV::Array(hits.map_values(|h: SearchHitV| outward_hit(query, h, at))),
    )
}

/// The payload the model sees of a search that was answered.
pub open spec fn model_result(query: Seq<char>, hits: Seq<SearchHitV>, at: Seq<char>) -> JsonV {
    empty_object().with("query"@, JsonV::Str(query)).with(
        "results"@,
        JsonV::Array(hits.map_values(|h: SearchHitV| model_hit(query, h, at))),
    )
}

/// What became of a `web_search` call: the outward result block, the
/// plaintext payload the model sees on the re-sent tool message, and how
/// many provider requests were made for it.
#[derive(Debug)]
pub struct SearchOutcome {
    pub outward: Json,
    pub model: Json,
    pub requests: u32,
}

/// The view of a [`SearchOutcome`].
#[verifier::ext_equal]
pub struct SearchOutcomeV {
    pub outward: JsonV,
    pub model: JsonV,
    pub requests: u32,
}

impl View for SearchOutcome {
    type V = SearchOutcomeV;

    open spec fn view(&self) -> SearchOutcomeV {
        SearchOutcomeV {
            outward: self.outward@,
            model: self.model@,
            requests: self.requests,
        }
    }
}

/// How a `web_search` call goes on: it is answered without a search, or the
/// provider is asked.
#[derive(Debug)]
pub enum SearchStep {
    Answered(SearchOutcome),
    Ask {
        /// The query as the model wrote it.
        query: String,
        /// The query the provider is asked, the location folded in.
        search_query: String,
    },
}

/// The view of a [`SearchStep`].
#[verifier::ext_equal]
pub enum SearchStepV {
    Answered(SearchOutcomeV),
    Ask { query: Seq<char>, search_query: Seq<char> },
}

impl View for SearchStep {
    type V = SearchStepV;

    open spec fn view(&self) -> SearchStepV {
        match *self {
            SearchStep::Answered(o) => SearchStepV::Answered(o@),
            SearchStep::Ask { query, search_query } => SearchStepV::Ask {
                query: query@,
                search_query: search_query@,
            },
        }
    }
}

/// How a `web_search` call goes on. No query, a query that is too long and
/// a call past the offer's cap are answered without a provider request.
pub open spec fn search_step(
    id: Seq<char>,
    input: JsonV,
    meta: WebSearchMetaV,
    uses: u32,
) -> SearchStepV {
    let query = query_in(input);
    if query.len() == 0 {
        SearchStepV::Answered(
            SearchOutcomeV {
                outward: error_result(id, "missing_query"@, "web_search requires a query field"@),
                model: empty_object().with("error"@, JsonV::Str("missing_query"@)),
                requests: 0,
            },
        )
    } else if encode_utf8(query).len() > MAX_QUERY_LEN {
        SearchStepV::Answered(
            SearchOutcomeV {
                outward: error_result(
                    id,
                    "query_too_long"@,
                    "query must be at most "@ + decimal(MAX_QUERY_LEN as nat) + " characters"@,
                ),
                model: error_payload("query_too_long"@, query),
                requests: 0,
            },
        )
    } else if meta.max_uses is Some && uses >= meta.max_uses->0 {
        SearchStepV::Answered(
            SearchOutcomeV {
                outward: error_result(
                    id,
                    "max_uses_exceeded"@,
                    "web_search has reached the request's maximum call count"@,
                ),
                model: error_payload("max_uses_exceeded"@, query),
                requests: 0,
            },
        )
    } else {
        SearchStepV::Ask { query, search_query: located(query, meta.user_location) }
    }
}

/// The uses after a call: one more where the provider is asked. The count
/// stays at its largest value, which no cap exceeds.
pub open spec fn uses_after(step: SearchStepV, uses: u32) -> u32 {
    if step is Ask && uses < u32::MAX {
        (uses + 1) as u32
    } else {
        uses
    }
}

/// What a search comes to, given the provider's body; `None` stands for a
/// request that failed.
pub open spec fn search_outcome(
    id: Seq<char>,
    query: Seq<char>,
    body: Option<Seq<char>>,
    format: SearchFormat,
    max_results: u32,
    at: Seq<char>,
) -> SearchOutcomeV {
    match body {
        None => SearchOutcomeV {
            outward: error_result(
                id,
                "search_unavailable"@,
                "the web_search provider request failed"@,
            ),
            model: error_payload("search_unavailable"@, query),
            requests: 1,
        },
        Some(body) => {
            let hits = shown(hits_in_body(format, body), max_results);
            SearchOutcomeV {
                outward: outward_result(id, query, hits, at),
                model: model_result(query, hits, at),
                requests: 1,
            }
        },
    }
}

/// The result block's error item: an is_error result the model can see.
pub fn error_block(tool_use_id: &str, code: &str, message: &str) -> (r: Json)
    ensures
        r@ == error_result(tool_use_id@, code@, message@),
{
    let item = Json::object().with("type", Json::text("web_search_tool_result_error")).with(
        "error_code",
        Json::text(code),
    ).with("message", Json::text(message));
    let mut content: Vec<Json> = Vec::new();
    proof {
        lemma_items_push(content@, item);
        assert(items_view(content@) == Seq::<JsonV>::empty());
        assert(items_view(content@).push(item@) == seq![item@]);
    }
    content.push(item);
    Json::object().with("type", Json::text("web_search_tool_result")).with(
        "tool_use_id",
        Json::text(tool_use_id),
    ).with("content", Json::Array(content)).with("is_error", Json::Bool(true))
}

/// The trimmed text under a key.
fn member(v: &Json, key: &str) -> (r: String)
    ensures
        r@ == trimmed_member(v@, key@),
{
    let raw = owned_or_empty(v.get_str(key));
    trim(raw.as_str()).to_owned()
}

/// The query of a call's input.
pub fn query_of(input: &Json) -> (r: String)
    ensures
        r@ == query_in(input@),
{
    let query = member(input, "query");
    if !is_empty(query.as_str()) {
        return query;
    }
    let q = member(input, "q");
    if !is_empty(q.as_str()) {
        return q;
    }
    member(input, "search_query")
}

fn push_part(parts: &mut Vec<String>, t: String)
    ensures
        texts(final(parts)@) == with_text(texts(old(parts)@), t@),
{
    if !is_empty(t.as_str()) {
        let ghost before = parts@;
        parts.push(t);
        assert(texts(parts@) == texts(before).push(t@));
    }
}

/// `user_location` (city/region/country) is folded into the query as a
/// space-joined suffix — the provider is a plain search endpoint, so the
/// location rides the query string, not a separate parameter.
pub fn with_location(query: &str, user_location: &Option<Json>) -> (r: String)
    ensures
        r@ == located(query@, opt_owned(*user_location)),
{
    match user_location {
        None => query.to_owned(),
        Some(location) => {
            let mut parts: Vec<String> = Vec::new();
            assert(texts(parts@) == Seq::<Seq<char>>::empty());
            push_part(&mut parts, member(location, "city"));
            push_part(&mut parts, member(location, "region"));
            push_part(&mut parts, member(location, "country"));
            assert(texts(parts@).len() == parts@.len());
            if parts.len() == 0 {
                query.to_owned()
            } else {
                concat3(query, " ", join(&parts, " ").as_str())
            }
        },
    }
}

fn upper_hex_of(v: u8) -> (r: char)
    requires
        v < 16,
    ensures
        r == upper_hex(v as int),
{
    if v < 10 {
        (48u8 + v) as char
    } else {
        (55u8 + v) as char
    }
}

/// Minimal RFC 3986 query-component encoding of the unreserved set.
pub fn url_encode(s: &str) -> (r: String)
    ensures
        r@ == percent_encoded(encode_utf8(s@)),
{
    let bytes = s.as_bytes();
    let mut out = String::new();
    let mut i: usize = 0;
    assert(bytes@.take(0) == Seq::<u8>::empty());
    while i < bytes.len()
        invariant
            i <= bytes@.len(),
            out@ == percent_encoded(bytes@.take(i as int)),
        decreases bytes@.len() - i,
    {
        let b: u8 = bytes[i];
        assert(bytes@.take(i + 1).drop_last() == bytes@.take(i as int));
        let plain = (0x41 <= b && b <= 0x5a) || (0x61 <= b && b <= 0x7a) || (0x30 <= b && b <= 0x39)
            || b == 0x2d || b == 0x2e || b == 0x5f || b == 0x7e;
        if plain {
            out.push(b as char);
        } else {
            out.push('%');
            out.push(upper_hex_of(b / 16));
            out.push(upper_hex_of(b % 16));
        }
        i = i + 1;
    }
    assert(bytes@.take(bytes@.len() as int) == bytes@);
    out
}

/// The provider URL: the operator endpoint plus the query. RSS mode sends
/// `q` and `format=rss` (the keyless Bing RSS contract); JSON mode sends
/// `q` only — a JSON provider is keyed to answer on that parameter.
pub fn build_url(base: &str, format: SearchFormat, query: &str) -> (r: String)
    ensures
        r@ == search_url(base@, format, query@),
{
    let sep = if contains_char(base, '?') {
        "&"
    } else {
        "?"
    };
    let mut url = concat3(base, sep, "q=");
    url.append(url_encode(query).as_str());
    match format {
        SearchFormat::Rss => url.append("&format=rss"),
        SearchFormat::Json => {},
    }
    url
}

/// The provider's opaque result blob, official wire shape: a `nimsearch_`
/// prefix over the unpadded URL-safe base64 of the plaintext payload.
/// Synthetic (the model parses the plaintext payload, not this blob).
pub fn encrypt(payload: &Json) -> (r: String)
    ensures
        r@ == encrypted(payload@),
{
    let raw = print(payload);
    concat("nimsearch_", base64_url_safe_no_pad(raw.as_str().as_bytes()).as_str())
}

/// Decide on one `web_search` call before any provider request.
pub fn plan_search(
    tool_use_id: &str,
    input: &Json,
    meta: &WebSearchMeta,
    uses: &mut u32,
) -> (r: SearchStep)
    ensures
        r@ == search_step(tool_use_id@, input@, meta@, *old(uses)),
        *final(uses) == uses_after(r@, *old(uses)),
{
    let query = query_of(input);
    if is_empty(query.as_str()) {
        return SearchStep::Answered(
            SearchOutcome {
                outward: error_block(
                    tool_use_id,
                    "missing_query",
                    "web_search requires a query field",
                ),
                model: Json::object().with("error", Json::text("missing_query")),
                requests: 0,
            },
        );
    }
    if query.as_str().as_bytes().len() > MAX_QUERY_LEN {
        let message = concat3(
            "query must be at most ",
            decimal_text(MAX_QUERY_LEN as u128).as_str(),
            " characters",
        );
        return SearchStep::Answered(
            SearchOutcome {
                outward: error_block(tool_use_id, "query_too_long", message.as_str()),
                model: Json::object().with("error", Json::text("query_too_long")).with(
                    "query",
                    Json::Str(query),
                ),
                requests: 0,
            },
        );
    }
    let exhausted = match meta.max_uses {
        Some(cap) => *uses >= cap,
        None => false,
    };
    if exhausted {
        return SearchStep::Answered(
            SearchOutcome {
                outward: error_block(
                    tool_use_id,
                    "max_uses_exceeded",
                    "web_search has reached the request's maximum call count",
                ),
                model: Json::object().with("error", Json::text("max_uses_exceeded")).with(
                    "query",
                    Json::Str(query),
                ),
                requests: 0,
            },
        );
    }
    if *uses < u32::MAX {
        *uses = *uses + 1;
    }
    let search_query = with_location(query.as_str(), &meta.user_location);
    SearchStep::Ask { query, search_query }
}

/// The text that a provider's answer is worth.
pub open spec fn provider_text(status: u16, body: Option<Seq<char>>) -> Option<Seq<char>> {
    if 200 <= status < 300 {
        non_empty(body)
    } else {
        None
    }
}

/// What a provider's answer is worth: a status that is no success, a body
/// that cannot be read and an empty one are failures.
pub fn provider_body(status: u16, body: Option<String>) -> (r: Option<String>)
    ensures
        opt_text(r) == if 200 <= status < 300 && or_empty(opt_text(body)).len() > 0 {
            opt_text(body)
        } else {
            None
        },
        opt_text(r) == provider_text(status, opt_text(body)),
{
    match body {
        Some(text) => if 200 <= status && status < 300 && !is_empty(text.as_str()) {
            Some(text)
        } else {
            None
        },
        None => None,
    }
}

/// An optional text as a value.
fn or_null(t: &Option<String>) -> (r: Json)
    ensures
        r@ == text_or_null(opt_text(*t)),
{
    match t {
        Some(s) => Json::text(s.as_str()),
        None => Json::Null,
    }
}

/// Fold the provider's answer into the result of a `web_search` call.
/// `body` is `None` where the request failed, and `unix_secs` the time at
/// which the answer came.
pub fn finish_search(
    tool_use_id: &str,
    query: &str,
    body: Option<&str>,
    format: SearchFormat,
    max_results: u32,
    unix_secs: u64,
) -> (r: SearchOutcome)
    ensures
        r@ == search_outcome(
            tool_use_id@,
            query@,
            opt_str(body),
            format,
            max_results,
            utc_text(unix_secs as nat),
        ),
{
    let body = match body {
        Some(body) => body,
        None => {
            return SearchOutcome {
                outward: error_block(
                    tool_use_id,
                    "search_unavailable",
                    "the web_search provider request failed",
                ),
                model: Json::object().with("error", Json::text("search_unavailable")).with(
                    "query",
                    Json::text(query),
                ),
                requests: 1,
            };
        },
    };
    let hits = match format {
        SearchFormat::Rss => parse_rss(body),
        SearchFormat::Json => parse_json(body),
    };
    outcome_of_hits(tool_use_id, query, &hits, max_results, unix_secs)
}

/// The result of a `web_search` call that the provider answered with hits.
pub open spec fn hits_outcome(
    id: Seq<char>,
    query: Seq<char>,
    hits: Seq<SearchHitV>,
    max_results: u32,
    at: Seq<char>,
) -> SearchOutcomeV {
    let passed = shown(hits, max_results);
    SearchOutcomeV {
        outward: outward_result(id, query, passed, at),
        model: model_result(query, passed, at),
        requests: 1,
    }
}

/// The result of a `web_search` call that the provider answered.
pub fn outcome_of_hits(
    tool_use_id: &str,
    query: &str,
    hits: &Vec<SearchHit>,
    max_results: u32,
    unix_secs: u64,
) -> (r: SearchOutcome)
    ensures
        ({
            let at = utc_text(unix_secs as nat);
            let passed = shown(hits_view(hits@), max_results);
            r@ == (SearchOutcomeV {
                outward: outward_result(tool_use_id@, query@, passed, at),
                model: model_result(query@, passed, at),
                requests: 1,
            })
        }),
        r@ == hits_outcome(
            tool_use_id@,
            query@,
            hits_view(hits@),
            max_results,
            utc_text(unix_secs as nat),
        ),
{
    let retrieved_at = utc_time(unix_secs);
    let ghost at = retrieved_at@;
    let ghost all = hits_view(hits@);
    let limit: u32 = if max_results > 0 {
        max_results
    } else {
        1
    };
    let mut outward: Vec<Json> = Vec::new();
    let mut model: Vec<Json> = Vec::new();
    let mut count: u32 = 0;
    let mut i: usize = 0;
    let ghost passed = shown(all, max_results);
    assert(all.take(0) == Seq::<SearchHitV>::empty());
    assert(items_view(outward@) == linked(all.take(0)).map_values(
        |h: SearchHitV| outward_hit(query@, h, at),
    ));
    assert(items_view(model@) == linked(all.take(0)).map_values(
        |h: SearchHitV| model_hit(query@, h, at),
    ));
    while i < hits.len() && count < limit
        invariant
            i <= hits@.len(),
            all == hits_view(hits@),
            at == retrieved_at@,
            count <= limit,
            count == linked(all.take(i as int)).len(),
            items_view(outward@) == linked(all.take(i as int)).map_values(
                |h: SearchHitV| outward_hit(query@, h, at),
            ),
            items_view(model@) == linked(all.take(i as int)).map_values(
                |h: SearchHitV| model_hit(query@, h, at),
            ),
        decreases hits@.len() - i,
    {
        let h = &hits[i];
        proof {
            assert(all.take(i + 1).drop_last() == all.take(i as int));
            assert(all.take(i + 1).last() == h@);
        }
        if !is_empty(h.url.as_str()) {
            let blob = encrypt(
                &Json::object().with("query", Json::text(query)).with(
                    "url",
                    Json::text(h.url.as_str()),
                ).with("title", Json::text(h.title.as_str())).with(
                    "snippet",
                    Json::text(h.snippet.as_str()),
                ).with("page_age", or_null(&h.page_age)).with(
                    "retrieved_at",
                    Json::text(retrieved_at.as_str()),
                ),
            );
            let age = match &h.page_age {
                Some(age) => Some(Json::text(age.as_str())),
                None => None,
            };
            let out = Json::object().with("type", Json::text("web_search_result")).with(
                "url",
                Json::text(h.url.as_str()),
            ).with("title", Json::text(h.title.as_str())).with(
                "encrypted_content",
                Json::text(blob.as_str()),
            ).with_some("page_age", age);
            let seen = Json::object().with("url", Json::text(h.url.as_str())).with(
                "title",
                Json::text(h.title.as_str()),
            ).with("snippet", Json::text(h.snippet.as_str())).with(
                "page_age",
                or_null(&h.page_age),
            ).with("encrypted_content", Json::Str(blob)).with(
                "retrieved_at",
                Json::text(retrieved_at.as_str()),
            );
            proof {
                lemma_items_push(outward@, out);
                lemma_items_push(model@, seen);
                let before = linked(all.take(i as int));
                assert(out@ == outward_hit(query@, h@, at));
                assert(seen@ == model_hit(query@, h@, at));
                assert(before.push(h@).map_values(|h: SearchHitV| outward_hit(query@, h, at))
                    == before.map_values(|h: SearchHitV| outward_hit(query@, h, at)).push(out@));
                assert(before.push(h@).map_values(|h: SearchHitV| model_hit(query@, h, at))
                    == before.map_values(|h: SearchHitV| model_hit(query@, h, at)).push(seen@));
            }
            outward.push(out);
            model.push(seen);
            count = count + 1;
        }
        i = i + 1;
    }
    proof {
        lemma_linked_prefix(all, i as int);
        assert(all.take(all.len() as int) == all);
        assert(passed == linked(all.take(i as int)));
    }
    SearchOutcome {
        outward: Json::object().with("type", Json::text("web_search_tool_result")).with(
            "tool_use_id",
            Json::text(tool_use_id),
        ).with("content", Json::Array(outward)),
        model: Json::object().with("query", Json::text(query)).with("results", Json::Array(model)),
        requests: 1,
    }
}

/// The linked hits of a beginning are the beginning of the linked hits.
proof fn lemma_linked_prefix(hits: Seq<SearchHitV>, n: int)
    requires
        0 <= n <= hits.len(),
    ensures
        linked(hits.take(n)).len() <= linked(hits).len(),
        linked(hits).take(linked(hits.take(n)).len() as int) == linked(hits.take(n)),
    decreases hits.len() - n,
{
    if n < hits.len() {
        assert(hits.take(n + 1).drop_last() == hits.take(n));
        lemma_linked_prefix(hits, n + 1);
        let a = linked(hits.take(n));
        let b = linked(hits.take(n + 1));
        let c = linked(hits);
        assert(b.take(a.len() as int) == a);
        assert(c.take(a.len() as int) == c.take(b.len() as int).take(a.len() as int));
    } else {
        assert(hits.take(n) == hits);
        assert(linked(hits).take(linked(hits).len() as int) == linked(hits));
    }
}

}
