//! What a web search asks and what it shows: the query as the model wrote
//! it, escaped so that it reads back, and every hit in its place.
use crate::bridge::feed::{
    closed_item, element_text, entity, hits_from, hits_of_json, item_hit, json_hits, next_char,
    unescaped, unescaped_from, without_cdata, SearchHitV,
};
use crate::bridge::search::{
    hit_blob, hits_in_body, hits_outcome, linked, located, model_result, outward_result, percent_encoded,
    provider_text, query_in, search_outcome, search_step, search_url, shown, upper_hex, unreserved, uses_after,
    SearchStepV, WebSearchMetaV,
};
use crate::codec::{json_of_text, json_text};
use crate::config::SearchFormat;
use crate::digest::base64_text;
use crate::digest_laws::{base64_read, law_base64_reads_back};
use crate::json::{empty_object, JsonV};
use crate::numbers::{digit_value, digits_value, number_in};
use crate::text::{
    decimal, find_from, joined, lemma_find_from, matches_at, trimmed, trimmed_end, trimmed_start,
};
use crate::text_laws::{law_decimals_read_back, law_written_numbers_are_read_back};
use vstd::prelude::*;
use vstd::utf8::encode_utf8;

verus! {

/// A member's text, trimmed; empty where there is none.
pub open spec fn said_in(v: JsonV, key: Seq<char>) -> Seq<char> {
    match v.get_str(key) {
        Some(t) => trimmed(t),
        None => Seq::empty(),
    }
}

proof fn lemma_trimmed_empty()
    ensures
        trimmed(Seq::<char>::empty()) == Seq::<char>::empty(),
{
    let none = Seq::<char>::empty();
    assert(trimmed_start(none) =~= none);
    assert(trimmed_end(none) =~= none);
}

/// The query is the first of the three names under which a model may give
/// one that is not blank, trimmed.
pub proof fn law_queries_are_read(input: JsonV)
    ensures
        said_in(input, "query"@).len() > 0 ==> query_in(input) == said_in(input, "query"@),
        said_in(input, "query"@).len() == 0 && said_in(input, "q"@).len() > 0 ==> query_in(input)
            == said_in(input, "q"@),
        said_in(input, "query"@).len() == 0 && said_in(input, "q"@).len() == 0 ==> query_in(input)
            == said_in(input, "search_query"@),
{
    lemma_trimmed_empty();
}

/// A query with one more word of a place, where there is one.
pub open spec fn at_place(query: Seq<char>, location: JsonV, key: Seq<char>) -> Seq<char> {
    if said_in(location, key).len() > 0 {
        query + " "@ + said_in(location, key)
    } else {
        query
    }
}

/// The provider is asked for the query and, after it, the city, the region
/// and the country of the user, as far as they are known.
pub proof fn law_places_follow_the_query(query: Seq<char>, location: JsonV)
    ensures
        located(query, None) == query,
        located(query, Some(location)) == at_place(
            at_place(at_place(query, location, "city"@), location, "region"@),
            location,
            "country"@,
        ),
{
    lemma_trimmed_empty();
    let a = said_in(location, "city"@);
    let b = said_in(location, "region"@);
    let c = said_in(location, "country"@);
    let parts = crate::bridge::search::location_parts(location);
    let sep = " "@;
    let none = Seq::<Seq<char>>::empty();
    let p1 = if a.len() > 0 {
        none.push(a)
    } else {
        none
    };
    let p2 = if b.len() > 0 {
        p1.push(b)
    } else {
        p1
    };
    let p3 = if c.len() > 0 {
        p2.push(c)
    } else {
        p2
    };
    assert(parts == p3);
    lemma_place(query, none, query, a);
    let q1 = at_place(query, location, "city"@);
    lemma_place(query, p1, q1, b);
    let q2 = at_place(q1, location, "region"@);
    lemma_place(query, p2, q2, c);
}

/// One more word after a query with words.
proof fn lemma_place(query: Seq<char>, parts: Seq<Seq<char>>, so_far: Seq<char>, word: Seq<char>)
    requires
        so_far == if parts.len() == 0 {
            query
        } else {
            query + " "@ + joined(parts, " "@)
        },
    ensures
        query + " "@ + joined(parts.push(word), " "@) == so_far + " "@ + word,
{
    let sep = " "@;
    assert(parts.push(word).drop_last() =~= parts);
    if parts.len() == 0 {
        assert(joined(parts.push(word), sep) == word);
    } else {
        assert(joined(parts.push(word), sep) == joined(parts, sep) + sep + word);
        assert(query + sep + (joined(parts, sep) + sep + word) =~= (query + sep + joined(
            parts,
            sep,
        )) + sep + word);
    }
}

/// The value of a hexadecimal digit in capitals.
pub open spec fn hex_value(c: char) -> int {
    if '0' <= c <= '9' {
        c as int - '0' as int
    } else {
        c as int - 'A' as int + 10
    }
}

/// The bytes that a percent-encoded text stands for.
pub open spec fn percent_decoded(s: Seq<char>) -> Seq<u8>
    decreases s.len(),
{
    if s.len() == 0 {
        Seq::empty()
    } else if s.len() >= 3 && s[s.len() - 3] == '%' {
        percent_decoded(s.take(s.len() - 3)).push(
            (16 * hex_value(s[s.len() - 2]) + hex_value(s[s.len() - 1])) as u8,
        )
    } else {
        percent_decoded(s.drop_last()).push(s.last() as u8)
    }
}

proof fn lemma_upper_hex(v: int)
    requires
        0 <= v < 16,
    ensures
        hex_value(upper_hex(v)) == v,
        upper_hex(v) != '%',
        plain_mark(upper_hex(v)),
{
    if v < 10 {
        assert(upper_hex(v) as int == 48 + v);
    } else {
        assert(upper_hex(v) as int == 55 + v);
    }
}

/// Every percent sign of an encoded text has its two digits after it.
proof fn lemma_percent_signs(bytes: Seq<u8>)
    ensures
        forall|i: int|
            0 <= i < percent_encoded(bytes).len() && #[trigger] percent_encoded(bytes)[i] == '%'
                ==> i + 2 < percent_encoded(bytes).len(),
    decreases bytes.len(),
{
    if bytes.len() > 0 {
        lemma_percent_signs(bytes.drop_last());
        let head = percent_encoded(bytes.drop_last());
        let b = bytes.last();
        if !unreserved(b) {
            lemma_upper_hex(b as int / 16);
            lemma_upper_hex(b as int % 16);
        } else {
            assert((b as char) as int == b as int);
        }
        let all = percent_encoded(bytes);
        assert forall|i: int| 0 <= i < all.len() && #[trigger] all[i] == '%' implies i + 2
            < all.len() by {
            if i < head.len() {
                assert(all[i] == head[i]);
            }
        }
    }
}

/// Whether a character may stand in an encoded text.
pub open spec fn plain_mark(c: char) -> bool {
    'a' <= c <= 'z' || 'A' <= c <= 'Z' || '0' <= c <= '9' || c == '-' || c == '.' || c == '_' || c
        == '~' || c == '%'
}

/// Percent-encoding loses nothing: what is encoded reads back, and only
/// letters, digits, the four marks and percent signs stand in it.
pub proof fn law_percent_encoding_reads_back(bytes: Seq<u8>)
    ensures
        percent_decoded(percent_encoded(bytes)) == bytes,
        forall|i: int|
            0 <= i < percent_encoded(bytes).len() ==> plain_mark(
                #[trigger] percent_encoded(bytes)[i],
            ),
    decreases bytes.len(),
{
    if bytes.len() > 0 {
        let front = bytes.drop_last();
        law_percent_encoding_reads_back(front);
        lemma_percent_signs(front);
        let head = percent_encoded(front);
        let b = bytes.last();
        let all = percent_encoded(bytes);
        assert(bytes =~= front.push(b));
        if unreserved(b) {
            assert(all.drop_last() =~= head);
            assert((b as char) as u8 == b);
            if all.len() >= 3 {
                assert(all[all.len() - 3] == head[head.len() - 2]);
            }
        } else {
            lemma_upper_hex(b as int / 16);
            lemma_upper_hex(b as int % 16);
            assert(all.take(all.len() - 3) =~= head);
            assert(16 * (b as int / 16) + b as int % 16 == b);
        }
        assert forall|i: int| 0 <= i < all.len() implies plain_mark(#[trigger] all[i]) by {
            if i < head.len() {
                assert(all[i] == head[i]);
            } else if unreserved(b) {
                assert((b as char) as int == b as int);
            }
        }
    }
}

/// The provider's address comes first, then the query, marked and encoded so
/// that it reads back, and for a feed its format.
pub proof fn law_search_addresses(base: Seq<char>, format: SearchFormat, query: Seq<char>)
    ensures
        ({
            let url = search_url(base, format, query);
            let n = base.len() as int;
            let end = if format == SearchFormat::Rss {
                url.len() - 11
            } else {
                url.len() as int
            };
            &&& base.is_prefix_of(url)
            &&& n + 3 <= end <= url.len()
            &&& url[n] == if base.contains('?') {
                '&'
            } else {
                '?'
            }
            &&& url[n + 1] == 'q' && url[n + 2] == '='
            &&& percent_decoded(url.subrange(n + 3, end)) == encode_utf8(query)
            &&& format == SearchFormat::Rss ==> url.skip(end) == "&format=rss"@
        }),
{
    reveal_strlit("&");
    reveal_strlit("?");
    reveal_strlit("q=");
    reveal_strlit("&format=rss");
    let url = search_url(base, format, query);
    let n = base.len() as int;
    let encoded = percent_encoded(encode_utf8(query));
    law_percent_encoding_reads_back(encode_utf8(query));
    assert("&format=rss"@.len() == 11);
    let end = if format == SearchFormat::Rss {
        url.len() - 11
    } else {
        url.len() as int
    };
    assert(url.subrange(n + 3, end) =~= encoded);
    assert(url.take(n) =~= base);
    if format == SearchFormat::Rss {
        assert(url.skip(end) =~= "&format=rss"@);
    }
}

/// Whether a block tells the caller of a failed search: the search it is
/// for, and why.
pub open spec fn tells_failure(block: JsonV, id: Seq<char>, code: Seq<char>) -> bool {
    &&& block.get_str("type"@) == Some("web_search_tool_result"@)
    &&& block.get_str("tool_use_id"@) == Some(id)
    &&& block.get("is_error"@) == Some(JsonV::Bool(true))
    &&& block.list("content"@).len() == 1
    &&& block.list("content"@)[0].get_str("type"@) == Some("web_search_tool_result_error"@)
    &&& block.list("content"@)[0].get_str("error_code"@) == Some(code)
}

proof fn lemma_error_keys()
    ensures
        "type"@ != "tool_use_id"@,
        "type"@ != "content"@,
        "type"@ != "is_error"@,
        "type"@ != "error_code"@,
        "type"@ != "message"@,
        "tool_use_id"@ != "content"@,
        "tool_use_id"@ != "is_error"@,
        "content"@ != "is_error"@,
        "error_code"@ != "message"@,
        "error"@ != "query"@,
        "url"@ != "title"@,
        "url"@ != "snippet"@,
        "url"@ != "page_age"@,
        "url"@ != "encrypted_content"@,
        "url"@ != "retrieved_at"@,
        "url"@ != "type"@,
        "title"@ != "type"@,
        "title"@ != "snippet"@,
        "title"@ != "page_age"@,
        "title"@ != "encrypted_content"@,
        "title"@ != "retrieved_at"@,
        "snippet"@ != "page_age"@,
        "snippet"@ != "encrypted_content"@,
        "snippet"@ != "retrieved_at"@,
        "page_age"@ != "encrypted_content"@,
        "page_age"@ != "retrieved_at"@,
        "page_age"@ != "type"@,
        "encrypted_content"@ != "retrieved_at"@,
        "encrypted_content"@ != "type"@,
        "query"@ != "results"@,
{
    reveal_strlit("type");
    reveal_strlit("tool_use_id");
    reveal_strlit("content");
    reveal_strlit("is_error");
    reveal_strlit("error_code");
    reveal_strlit("message");
    reveal_strlit("error");
    reveal_strlit("query");
    reveal_strlit("url");
    reveal_strlit("title");
    reveal_strlit("snippet");
    reveal_strlit("page_age");
    reveal_strlit("encrypted_content");
    reveal_strlit("retrieved_at");
    reveal_strlit("results");
    assert("type"@.len() == 4 && "tool_use_id"@.len() == 11 && "content"@.len() == 7);
    assert("is_error"@.len() == 8 && "error_code"@.len() == 10 && "message"@.len() == 7);
    assert("error"@.len() == 5 && "query"@.len() == 5 && "error"@[0] == 'e' && "query"@[0] == 'q');
    assert("url"@.len() == 3 && "title"@.len() == 5 && "snippet"@.len() == 7);
    assert("page_age"@.len() == 8 && "encrypted_content"@.len() == 17);
    assert("retrieved_at"@.len() == 12 && "results"@.len() == 7);
}

/// A search is asked exactly when it has a query that is not too long and
/// the offer's cap leaves a use; it then uses one, and asks for what the
/// model wrote with the user's place after it. Otherwise it is answered with
/// the reason, under its own id, and uses and asks nothing.
pub proof fn law_which_searches_are_asked(
    id: Seq<char>,
    input: JsonV,
    meta: WebSearchMetaV,
    uses: u32,
)
    ensures
        ({
            let query = query_in(input);
            let step = search_step(id, input, meta, uses);
            let code = if query.len() == 0 {
                Some("missing_query"@)
            } else if encode_utf8(query).len() > 512 {
                Some("query_too_long"@)
            } else if meta.max_uses is Some && uses >= meta.max_uses->0 {
                Some("max_uses_exceeded"@)
            } else {
                None
            };
            match code {
                Some(code) => {
                    &&& step matches SearchStepV::Answered(o)
                    &&& o.requests == 0 && tells_failure(o.outward, id, code) && o.model.get_str(
                        "error"@,
                    ) == Some(code)
                    &&& uses_after(step, uses) == uses
                },
                None => {
                    &&& step == (SearchStepV::Ask {
                        query,
                        search_query: located(query, meta.user_location),
                    })
                    &&& uses < u32::MAX ==> uses_after(step, uses) == uses + 1
                },
            }
        }),
{
    lemma_error_keys();
}

/// The hits with an address, in order.
pub open spec fn addressed(hits: Seq<SearchHitV>) -> Seq<SearchHitV>
    decreases hits.len(),
{
    if hits.len() == 0 {
        Seq::empty()
    } else if hits.last().url.len() == 0 {
        addressed(hits.drop_last())
    } else {
        addressed(hits.drop_last()).push(hits.last())
    }
}

proof fn lemma_addressed(hits: Seq<SearchHitV>)
    ensures
        addressed(hits) == linked(hits),
    decreases hits.len(),
{
    if hits.len() > 0 {
        lemma_addressed(hits.drop_last());
    }
}

/// What is shown of the hits: the first ones with an address, as many as
/// were asked for, and at least one.
pub proof fn law_the_first_hits_are_shown(hits: Seq<SearchHitV>, max_results: u32)
    ensures
        ({
            let all = addressed(hits);
            let n: int = if max_results == 0 {
                1
            } else {
                max_results as int
            };
            shown(hits, max_results) == if all.len() > n {
                all.take(n)
            } else {
                all
            }
        }),
{
    lemma_addressed(hits);
}

/// Whether a hit's page age is told, or its absence.
pub open spec fn tells_age(v: Option<JsonV>, age: Option<Seq<char>>, absent: Option<JsonV>) -> bool {
    v == match age {
        Some(t) => Some(JsonV::Str(t)),
        None => absent,
    }
}

/// Every hit that is shown is told twice, in one order: to the caller with
/// its address and title, and to the model with its snippet too; both carry
/// the same sealed copy. The result is the answer to the search that asked,
/// and cost one request. A provider that failed is told as such.
pub proof fn law_hits_are_told_to_both_sides(
    id: Seq<char>,
    query: Seq<char>,
    body: Option<Seq<char>>,
    format: SearchFormat,
    max_results: u32,
    at: Seq<char>,
)
    ensures
        ({
            let o = search_outcome(id, query, body, format, max_results, at);
            &&& o.requests == 1
            &&& o.model.get_str("query"@) == Some(query)
            &&& match body {
                None => tells_failure(o.outward, id, "search_unavailable"@) && o.model.get_str(
                    "error"@,
                ) == Some("search_unavailable"@),
                Some(text) => {
                    let hits = shown(hits_in_body(format, text), max_results);
                    let out = o.outward.list("content"@);
                    let told = o.model.list("results"@);
                    &&& o.outward.get_str("type"@) == Some("web_search_tool_result"@)
                    &&& o.outward.get_str("tool_use_id"@) == Some(id)
                    &&& o.outward.get("is_error"@) is None
                    &&& out.len() == hits.len()
                    &&& told.len() == hits.len()
                    &&& forall|k: int|
                        0 <= k < hits.len() ==> {
                            let h = #[trigger] hits[k];
                            &&& out[k].get_str("type"@) == Some("web_search_result"@)
                            &&& out[k].get_str("url"@) == Some(h.url)
                            &&& out[k].get_str("title"@) == Some(h.title)
                            &&& tells_age(out[k].get("page_age"@), h.page_age, None)
                            &&& told[k].get_str("url"@) == Some(h.url)
                            &&& told[k].get_str("title"@) == Some(h.title)
                            &&& told[k].get_str("snippet"@) == Some(h.snippet)
                            &&& tells_age(
                                told[k].get("page_age"@),
                                h.page_age,
                                Some(JsonV::Null),
                            )
                            &&& told[k].get_str("retrieved_at"@) == Some(at)
                            &&& told[k].get_str("encrypted_content"@) is Some
                            &&& told[k].get("encrypted_content"@) == out[k].get(
                                "encrypted_content"@,
                            )
                        }
                },
            }
        }),
{
    lemma_error_keys();
    match body {
        None => {},
        Some(text) => {
            let hits = shown(hits_in_body(format, text), max_results);
            let out = outward_result(id, query, hits, at).list("content"@);
            let told = model_result(query, hits, at).list("results"@);
            assert(out =~= hits.map_values(
                |h: SearchHitV| crate::bridge::search::outward_hit(query, h, at),
            ));
            assert(told =~= hits.map_values(
                |h: SearchHitV| crate::bridge::search::model_hit(query, h, at),
            ));
            assert forall|k: int| 0 <= k < hits.len() implies ({
                let h = #[trigger] hits[k];
                &&& out[k] == crate::bridge::search::outward_hit(query, h, at)
                &&& told[k] == crate::bridge::search::model_hit(query, h, at)
            }) by {}
        },
    }
}

/// The results of a JSON answer with an address that is not blank.
pub open spec fn results_in(items: Seq<JsonV>) -> Seq<JsonV>
    decreases items.len(),
{
    if items.len() == 0 {
        Seq::empty()
    } else if said_in(items.last(), "url"@).len() > 0 {
        results_in(items.drop_last()).push(items.last())
    } else {
        results_in(items.drop_last())
    }
}

/// A text member; empty where there is none.
pub open spec fn text_in(v: JsonV, key: Seq<char>) -> Seq<char> {
    match v.get_str(key) {
        Some(t) => t,
        None => Seq::empty(),
    }
}

proof fn lemma_json_hits(items: Seq<JsonV>)
    ensures
        json_hits(items).len() == results_in(items).len(),
        forall|k: int|
            0 <= k < results_in(items).len() ==> #[trigger] json_hits(items)[k] == (SearchHitV {
                title: text_in(results_in(items)[k], "title"@),
                url: said_in(results_in(items)[k], "url"@),
                snippet: text_in(results_in(items)[k], "snippet"@),
                page_age: results_in(items)[k].get_str("page_age"@),
            }),
    decreases items.len(),
{
    if items.len() > 0 {
        lemma_trimmed_empty();
        lemma_json_hits(items.drop_last());
    }
}

/// A JSON answer, a list or an object with one, gives a hit for every result
/// with an address, in order, with its title, snippet and age.
pub proof fn law_json_results_are_hits(body: JsonV)
    ensures
        ({
            let items = match body {
                JsonV::Array(items) => items,
                other => other.list("results"@),
            };
            let hits = hits_of_json(Some(body));
            &&& hits.len() == results_in(items).len()
            &&& forall|k: int|
                0 <= k < hits.len() ==> #[trigger] hits[k] == (SearchHitV {
                    title: text_in(results_in(items)[k], "title"@),
                    url: said_in(results_in(items)[k], "url"@),
                    snippet: text_in(results_in(items)[k], "snippet"@),
                    page_age: results_in(items)[k].get_str("page_age"@),
                })
        }),
{
    let items = match body {
        JsonV::Array(items) => items,
        other => other.list("results"@),
    };
    lemma_json_hits(items);
}

/// A text with the marks of markup escaped.
pub open spec fn escaped(s: Seq<char>) -> Seq<char>
    decreases s.len(),
{
    if s.len() == 0 {
        Seq::empty()
    } else {
        let mark = if s[0] == '&' {
            "&amp;"@
        } else if s[0] == '<' {
            "&lt;"@
        } else if s[0] == '>' {
            "&gt;"@
        } else if s[0] == '"' {
            "&quot;"@
        } else if s[0] == '\'' {
            "&apos;"@
        } else {
            seq![s[0]]
        };
        mark + escaped(s.drop_first())
    }
}

/// A search for a character in the second of two texts.
proof fn lemma_next_char_shifted(a: Seq<char>, b: Seq<char>, c: char, from: int)
    requires
        0 <= from,
    ensures
        next_char(a + b, c, a.len() + from) == a.len() + if from <= b.len() {
            next_char(b, c, from)
        } else {
            b.len() as int
        },
    decreases b.len() - from,
{
    if from < b.len() && b[from] != c {
        lemma_next_char_shifted(a, b, c, from + 1);
    }
}

/// What is before a place does not change what unescaping gives from there.
proof fn lemma_unescaped_shifted(a: Seq<char>, b: Seq<char>, from: int)
    requires
        0 <= from,
    ensures
        unescaped_from(a + b, a.len() + from) == unescaped_from(b, from),
    decreases b.len() - from,
{
    let s = a + b;
    let n = a.len() as int;
    if from < b.len() {
        if b[from] != '&' {
            lemma_unescaped_shifted(a, b, from + 1);
        } else {
            crate::bridge::feed::lemma_next_char(b, ';', from + 1);
            lemma_next_char_shifted(a, b, ';', from + 1);
            let end = next_char(b, ';', from + 1);
            assert(next_char(s, ';', n + from + 1) == n + end);
            if end >= b.len() {
                lemma_unescaped_shifted(a, b, from + 1);
            } else {
                assert(s.subrange(n + from + 1, n + end) =~= b.subrange(from + 1, end));
                assert(s.subrange(n + from, n + end + 1) =~= b.subrange(from, end + 1));
                lemma_unescaped_shifted(a, b, end + 1);
            }
        }
    }
}

/// An entity in front gives its character.
proof fn lemma_unescaped_entity(mark: Seq<char>, rest: Seq<char>, c: char)
    requires
        mark.len() >= 2,
        mark[0] == '&',
        mark.last() == ';',
        forall|i: int| 0 < i < mark.len() - 1 ==> #[trigger] mark[i] != ';',
        entity(mark.subrange(1, mark.len() - 1)) == Some(c),
    ensures
        unescaped(mark + rest) == seq![c] + unescaped(rest),
{
    let s = mark + rest;
    let e = mark.len() - 1;
    lemma_next_at(s, ';', 1, e);
    assert(s.subrange(1, e) =~= mark.subrange(1, e));
    lemma_unescaped_shifted(mark, rest, 0);
}

proof fn lemma_next_at(s: Seq<char>, c: char, from: int, at: int)
    requires
        0 <= from <= at < s.len(),
        s[at] == c,
        forall|i: int| from <= i < at ==> #[trigger] s[i] != c,
    ensures
        next_char(s, c, from) == at,
    decreases at - from,
{
    if from < at {
        assert(s[from] != c);
        lemma_next_at(s, c, from + 1, at);
    }
}

/// Text that was escaped comes back as it was.
pub proof fn law_escaped_text_is_read_back(s: Seq<char>)
    ensures
        unescaped(escaped(s)) == s,
    decreases s.len(),
{
    if s.len() > 0 {
        let rest = s.drop_first();
        law_escaped_text_is_read_back(rest);
        let tail = escaped(rest);
        assert(s =~= seq![s[0]] + rest);
        reveal_strlit("&amp;");
        reveal_strlit("&lt;");
        reveal_strlit("&gt;");
        reveal_strlit("&quot;");
        reveal_strlit("&apos;");
        reveal_strlit("amp");
        reveal_strlit("lt");
        reveal_strlit("gt");
        reveal_strlit("quot");
        reveal_strlit("apos");
        if s[0] == '&' {
            assert("&amp;"@.subrange(1, 4) =~= "amp"@);
            lemma_unescaped_entity("&amp;"@, tail, '&');
        } else if s[0] == '<' {
            assert("&lt;"@.subrange(1, 3) =~= "lt"@);
            assert("lt"@.len() == 2 && "amp"@.len() == 3);
            lemma_unescaped_entity("&lt;"@, tail, '<');
        } else if s[0] == '>' {
            assert("&gt;"@.subrange(1, 3) =~= "gt"@);
            assert("gt"@[0] == 'g' && "lt"@[0] == 'l' && "amp"@.len() == 3 && "gt"@.len() == 2);
            lemma_unescaped_entity("&gt;"@, tail, '>');
        } else if s[0] == '"' {
            assert("&quot;"@.subrange(1, 5) =~= "quot"@);
            assert("quot"@.len() == 4 && "amp"@.len() == 3 && "lt"@.len() == 2 && "gt"@.len() == 2);
            lemma_unescaped_entity("&quot;"@, tail, '"');
        } else if s[0] == '\'' {
            assert("&apos;"@.subrange(1, 5) =~= "apos"@);
            assert("apos"@.len() == 4 && "amp"@.len() == 3 && "lt"@.len() == 2 && "gt"@.len() == 2);
            assert("apos"@[0] == 'a' && "quot"@[0] == 'q');
            lemma_unescaped_entity("&apos;"@, tail, '\'');
        } else {
            let front = seq![s[0]];
            lemma_unescaped_shifted(front, tail, 0);
        }
    }
}

/// A reference that is neither one of the five names nor a number.
pub open spec fn unknown_reference(name: Seq<char>) -> bool {
    &&& name != "amp"@ && name != "lt"@ && name != "gt"@ && name != "quot"@ && name != "apos"@
    &&& name.len() == 0 || name[0] != '#'
}

proof fn lemma_unknown_stays(s: Seq<char>, from: int)
    requires
        0 <= from <= s.len(),
        forall|i: int, j: int|
            0 <= i < j < s.len() && #[trigger] s[i] == '&' && #[trigger] s[j] == ';'
                ==> unknown_reference(s.subrange(i + 1, j)),
    ensures
        unescaped_from(s, from) == s.skip(from),
    decreases s.len() - from,
{
    if from < s.len() {
        if s[from] != '&' {
            lemma_unknown_stays(s, from + 1);
            assert(s.skip(from) =~= seq![s[from]] + s.skip(from + 1));
        } else {
            crate::bridge::feed::lemma_next_char(s, ';', from + 1);
            let end = next_char(s, ';', from + 1);
            if end >= s.len() {
                lemma_unknown_stays(s, from + 1);
                assert(s.skip(from) =~= seq!['&'] + s.skip(from + 1));
            } else {
                assert(s[end] == ';');
                assert(unknown_reference(s.subrange(from + 1, end)));
                lemma_unknown_stays(s, end + 1);
                assert(s.skip(from) =~= s.subrange(from, end + 1) + s.skip(end + 1));
            }
        }
    }
}

/// Nothing of a text is lost for an ampersand in it: where what follows is
/// no reference that is known, the text stays as it is.
pub proof fn law_unknown_references_stay(s: Seq<char>)
    requires
        forall|i: int, j: int|
            0 <= i < j < s.len() && #[trigger] s[i] == '&' && #[trigger] s[j] == ';'
                ==> unknown_reference(s.subrange(i + 1, j)),
    ensures
        unescaped(s) == s,
{
    lemma_unknown_stays(s, 0);
    assert(s.skip(0) =~= s);
}

/// A number written in hexadecimal.
pub open spec fn hex_numeral(n: nat) -> Seq<char>
    decreases n,
{
    if n < 16 {
        seq![upper_hex(n as int)]
    } else {
        hex_numeral(n / 16).push(upper_hex(n as int % 16))
    }
}

proof fn lemma_hex_numeral(n: nat)
    ensures
        digits_value(hex_numeral(n), 16) == Some(n),
        hex_numeral(n).len() > 0,
        forall|i: int|
            0 <= i < hex_numeral(n).len() ==> #[trigger] hex_numeral(n)[i] != ';' && hex_numeral(
                n,
            )[i] != '+',
    decreases n,
{
    let d = upper_hex(n as int % 16);
    assert(digit_value(d, 16) == Some(n % 16) && d != ';' && d != '+');
    if n < 16 {
        assert(hex_numeral(n).drop_last() =~= Seq::<char>::empty());
        assert(digits_value(Seq::<char>::empty(), 16) == Some(0nat));
    } else {
        lemma_hex_numeral(n / 16);
        assert(hex_numeral(n).drop_last() =~= hex_numeral(n / 16));
    }
}

proof fn lemma_numbered(head: Seq<char>, digits: Seq<char>, rest: Seq<char>, c: char)
    requires
        head.len() >= 2,
        head[0] == '&',
        head[1] == '#',
        forall|i: int| 0 < i < head.len() ==> #[trigger] head[i] != ';',
        forall|i: int| 0 <= i < digits.len() ==> #[trigger] digits[i] != ';',
        entity(head.drop_first() + digits) == Some(c),
    ensures
        unescaped(head + digits + seq![';'] + rest) == seq![c] + unescaped(rest),
{
    let mark = head + digits + seq![';'];
    assert(mark.subrange(1, mark.len() - 1) =~= head.drop_first() + digits);
    lemma_unescaped_entity(mark, rest, c);
}

/// Every character can be given by its number, in decimal or, after an `x`
/// of either case, in hexadecimal.
pub proof fn law_characters_are_read_by_their_numbers(c: char, rest: Seq<char>)
    ensures
        unescaped(seq!['&', '#'] + decimal(c as nat) + seq![';'] + rest) == seq![c] + unescaped(
            rest,
        ),
        unescaped(seq!['&', '#', 'x'] + hex_numeral(c as nat) + seq![';'] + rest) == seq![c]
            + unescaped(rest),
        unescaped(seq!['&', '#', 'X'] + hex_numeral(c as nat) + seq![';'] + rest) == seq![c]
            + unescaped(rest),
{
    let n = c as nat;
    reveal_strlit("amp");
    reveal_strlit("lt");
    reveal_strlit("gt");
    reveal_strlit("quot");
    reveal_strlit("apos");
    assert("amp"@[0] == 'a' && "lt"@[0] == 'l' && "gt"@[0] == 'g' && "quot"@[0] == 'q');
    assert("apos"@[0] == 'a');
    law_written_numbers_are_read_back(n, u32::MAX as nat);
    law_decimals_read_back(n);
    let plain = seq!['&', '#'];
    let name = plain.drop_first() + decimal(n);
    assert(name[0] == '#');
    assert(name.drop_first() =~= decimal(n));
    lemma_numbered(plain, decimal(n), rest, c);
    lemma_hex_numeral(n);
    assert(hex_numeral(n)[0] != '+');
    assert(number_in(hex_numeral(n), 16, u32::MAX as nat) == Some(n));
    let lower = seq!['&', '#', 'x'];
    let name = lower.drop_first() + hex_numeral(n);
    assert(name[0] == '#');
    assert(name.drop_first() =~= seq!['x'] + hex_numeral(n));
    assert((seq!['x'] + hex_numeral(n)).drop_first() =~= hex_numeral(n));
    lemma_numbered(lower, hex_numeral(n), rest, c);
    let upper = seq!['&', '#', 'X'];
    let name = upper.drop_first() + hex_numeral(n);
    assert(name[0] == '#');
    assert(name.drop_first() =~= seq!['X'] + hex_numeral(n));
    assert((seq!['X'] + hex_numeral(n)).drop_first() =~= hex_numeral(n));
    lemma_numbered(upper, hex_numeral(n), rest, c);
}

/// Whether the first element of a tag in an item holds a text: the tag opens
/// at `at` and not before, and the text and the closing tag follow.
pub open spec fn holds(item: Seq<char>, tag: Seq<char>, at: int, text: Seq<char>) -> bool {
    let open = "<"@ + tag + ">"@;
    let close = "</"@ + tag + ">"@;
    let start = at + open.len();
    &&& matches_at(item, open, at)
    &&& forall|j: int| 0 <= j < at ==> !matches_at(item, open, j)
    &&& matches_at(item, text, start)
    &&& matches_at(item, close, start + text.len())
}

/// Whether a text is plain: something other than white space at both ends,
/// and no mark of markup in it.
pub open spec fn plain_text(text: Seq<char>) -> bool {
    &&& text.len() > 0
    &&& trimmed(text) == text
    &&& forall|i: int| 0 <= i < text.len() ==> #[trigger] text[i] != '<' && text[i] != '&'
}

/// Text without an ampersand stands as it is.
proof fn lemma_unescaped_plain(s: Seq<char>)
    requires
        forall|i: int| 0 <= i < s.len() ==> #[trigger] s[i] != '&',
    ensures
        unescaped(s) == s,
    decreases s.len(),
{
    if s.len() > 0 {
        let front = seq![s[0]];
        let rest = s.drop_first();
        assert(s =~= front + rest);
        assert forall|i: int| 0 <= i < rest.len() implies #[trigger] rest[i] != '&' by {
            assert(rest[i] == s[i + 1]);
        }
        lemma_unescaped_plain(rest);
        lemma_unescaped_shifted(front, rest, 0);
    }
}

/// An element holds the plain text between its tags.
pub proof fn law_elements_hold_their_text(
    item: Seq<char>,
    tag: Seq<char>,
    at: int,
    text: Seq<char>,
)
    requires
        0 <= at,
        holds(item, tag, at, text),
        plain_text(text),
    ensures
        element_text(item, tag) == Some(text),
{
    let open = "<"@ + tag + ">"@;
    let close = "</"@ + tag + ">"@;
    let start = at + open.len();
    let end = start + text.len();
    reveal_strlit("<");
    reveal_strlit("</");
    reveal_strlit(">");
    assert(find_from(item, open, 0) == Some(at)) by {
        lemma_find_from(item, open, 0);
        match find_from(item, open, 0) {
            Some(i) => {
                if i < at {
                    assert(!matches_at(item, open, i));
                }
                if at < i {
                    assert(!matches_at(item, open, at));
                }
            },
            None => {
                assert(!matches_at(item, open, at));
            },
        }
    }
    assert(find_from(item, close, start) == Some(end)) by {
        lemma_find_from(item, close, start);
        match find_from(item, close, start) {
            Some(i) => {
                if i < end {
                    assert(item.subrange(i, i + close.len())[0] == close[0]);
                    assert(item.subrange(start, end)[i - start] == text[i - start]);
                    assert(close[0] == '<');
                }
                if end < i {
                    assert(!matches_at(item, close, end));
                }
            },
            None => {
                assert(!matches_at(item, close, end));
            },
        }
    }
    assert(item.subrange(start, end) == text);
    lemma_unescaped_plain(text);
    assert(without_cdata(text) == text) by {
        reveal_strlit("<![CDATA[");
        if "<![CDATA["@.is_prefix_of(text) {
            assert(text[0] == "<![CDATA["@[0]);
        }
    }
}

/// What an item's first element of a tag holds; none where there is no such
/// element.
pub open spec fn told_by(item: Seq<char>, tag: Seq<char>, text: Option<Seq<char>>) -> bool {
    match text {
        Some(t) => plain_text(t) && exists|at: int| 0 <= at && #[trigger] holds(item, tag, at, t),
        None => forall|j: int| 0 <= j ==> !matches_at(item, "<"@ + tag + ">"@, j),
    }
}

proof fn lemma_told_by(item: Seq<char>, tag: Seq<char>, text: Option<Seq<char>>)
    requires
        told_by(item, tag, text),
    ensures
        element_text(item, tag) == text,
{
    match text {
        Some(t) => {
            let at = choose|at: int| 0 <= at && #[trigger] holds(item, tag, at, t);
            law_elements_hold_their_text(item, tag, at, t);
        },
        None => {
            lemma_find_from(item, "<"@ + tag + ">"@, 0);
        },
    }
}

/// A feed's item is read by its tags: the link is the address, the title the
/// title, the description the snippet, and the publication date the age. One
/// without a link is no hit.
pub proof fn law_items_are_read_by_their_tags(
    item: Seq<char>,
    link: Option<Seq<char>>,
    title: Option<Seq<char>>,
    description: Option<Seq<char>>,
    published: Option<Seq<char>>,
    dated: Option<Seq<char>>,
)
    requires
        closed_item(item),
        told_by(item.subrange(5, item.len() - 7), "link"@, link),
        told_by(item.subrange(5, item.len() - 7), "title"@, title),
        told_by(item.subrange(5, item.len() - 7), "description"@, description),
        told_by(item.subrange(5, item.len() - 7), "pubDate"@, published),
        told_by(item.subrange(5, item.len() - 7), "dc:date"@, dated),
    ensures
        hits_from(item, 0) == match link {
            None => Seq::empty(),
            Some(url) => seq![
                SearchHitV {
                    title: match title {
                        Some(t) => t,
                        None => Seq::empty(),
                    },
                    url,
                    snippet: match description {
                        Some(t) => t,
                        None => Seq::empty(),
                    },
                    page_age: match published {
                        Some(t) => Some(t),
                        None => dated,
                    },
                },
            ],
        },
{
    let inner = item.subrange(5, item.len() - 7);
    lemma_told_by(inner, "link"@, link);
    lemma_told_by(inner, "title"@, title);
    lemma_told_by(inner, "description"@, description);
    lemma_told_by(inner, "pubDate"@, published);
    lemma_told_by(inner, "dc:date"@, dated);
    let none = Seq::<char>::empty();
    crate::bridge::feed::lemma_item_in_front(item, none);
    assert(item + none =~= item);
    assert(hits_from(none, 0) =~= Seq::<SearchHitV>::empty()) by {
        reveal_strlit("<item");
        assert(find_from(none, "<item"@, 0) is None);
    }
    match item_hit(inner) {
        Some(hit) => {
            assert(seq![hit] + Seq::<SearchHitV>::empty() =~= seq![hit]);
        },
        None => {},
    }
}

/// Text that is marked as character data is read without the marks and the
/// white space around it.
pub proof fn law_character_data_is_unwrapped(text: Seq<char>)
    ensures
        without_cdata("<![CDATA["@ + text + "]]>"@) == trimmed(text),
{
    let open = "<![CDATA["@;
    let close = "]]>"@;
    let s = open + text + close;
    assert(s.take(open.len() as int) =~= open);
    assert(open.is_prefix_of(s));
    let rest = s.skip(open.len() as int);
    assert(rest =~= text + close);
    assert(close.is_suffix_of(rest)) by {
        assert(rest.skip(rest.len() - close.len()) =~= close);
    }
    assert(s.subrange(open.len() as int, s.len() - close.len()) =~= text);
}

/// The sealed copy of a hit opens again: after its mark it is the text, in
/// base64, of all that is known of the hit and of the search that found it.
pub proof fn law_sealed_hits_open_again(query: Seq<char>, hit: SearchHitV, at: Seq<char>)
    ensures
        "nimsearch_"@.is_prefix_of(hit_blob(query, hit, at)),
        exists|v: JsonV|
            base64_read(hit_blob(query, hit, at).skip(10)) == encode_utf8(#[trigger] json_text(v))
                && v.get_str("query"@) == Some(query) && v.get_str("url"@) == Some(hit.url)
                && v.get_str("title"@) == Some(hit.title) && v.get_str("snippet"@) == Some(
                hit.snippet,
            ) && tells_age(v.get("page_age"@), hit.page_age, Some(JsonV::Null)) && v.get_str(
                "retrieved_at"@,
            ) == Some(at),
{
    lemma_error_keys();
    reveal_strlit("nimsearch_");
    reveal_strlit("query");
    reveal_strlit("retrieved_at");
    assert("query"@.len() == 5 && "query"@[0] == 'q' && "title"@ != "query"@) by {
        reveal_strlit("title");
        assert("title"@[0] == 't');
    }
    assert("url"@ != "query"@ && "snippet"@ != "query"@ && "page_age"@ != "query"@
        && "retrieved_at"@ != "query"@) by {
        reveal_strlit("url");
        reveal_strlit("snippet");
        reveal_strlit("page_age");
        assert("url"@.len() == 3 && "snippet"@.len() == 7 && "page_age"@.len() == 8);
        assert("retrieved_at"@.len() == 12);
    }
    let v = empty_object().with("query"@, JsonV::Str(query)).with(
        "url"@,
        JsonV::Str(hit.url),
    ).with("title"@, JsonV::Str(hit.title)).with("snippet"@, JsonV::Str(hit.snippet)).with(
        "page_age"@,
        crate::bridge::search::text_or_null(hit.page_age),
    ).with("retrieved_at"@, JsonV::Str(at));
    let blob = hit_blob(query, hit, at);
    let sealed = base64_text(encode_utf8(json_text(v)));
    assert("nimsearch_"@.len() == 10);
    assert(blob == "nimsearch_"@ + sealed);
    assert(blob.take(10) =~= "nimsearch_"@);
    assert(blob.skip(10) =~= sealed);
    law_base64_reads_back(encode_utf8(json_text(v)));
}

/// A provider's answer counts exactly when it is a success with a text; it
/// is then read as its format says, and what comes of it is what comes of
/// the hits it holds.
pub proof fn law_provider_answers(
    status: u16,
    body: Option<Seq<char>>,
    text: Seq<char>,
    id: Seq<char>,
    query: Seq<char>,
    format: SearchFormat,
    max_results: u32,
    at: Seq<char>,
)
    ensures
        provider_text(status, body) is Some <==> 200 <= status < 300 && body is Some
            && body->0.len() > 0,
        provider_text(status, body) is Some ==> provider_text(status, body) == body,
        hits_in_body(SearchFormat::Rss, text) == hits_from(text, 0),
        hits_in_body(SearchFormat::Json, text) == hits_of_json(json_of_text(text)),
        search_outcome(id, query, Some(text), format, max_results, at) == hits_outcome(
            id,
            query,
            hits_in_body(format, text),
            max_results,
            at,
        ),
{
}

}
