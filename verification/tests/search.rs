//! The in-gateway web search: feeds, queries, URLs and results.
use base64::engine::general_purpose::{URL_SAFE, URL_SAFE_NO_PAD};
use base64::Engine;
use nim_proxy::bridge::feed::unescape_xml;
use nim_proxy::bridge::search::{
    build_url, encrypt, error_block, finish_search, parse_json, parse_rss, plan_search,
    provider_body, query_of,
    url_encode, with_location, SearchHit, SearchStep, WebSearchMeta, MAX_QUERY_LEN,
};
use nim_proxy::calendar::{civil_from_days, utc_time};
use nim_proxy::codec;
use nim_proxy::config::SearchFormat;
use nim_proxy::json::Json;
use serde_json::Value;

fn val(text: &str) -> Json {
    codec::parse(text).expect("test JSON")
}

fn out(j: &Json) -> Value {
    serde_json::from_str(&codec::print(j)).expect("printed JSON")
}

const RSS: &str = r#"<?xml version="1.0"?>
    <rss><channel>
      <title>Feed</title>
      <item>
        <title>One &amp; only</title>
        <link>https://a.example/one</link>
        <description><![CDATA[a <b>bold</b> snippet]]></description>
        <pubDate>Tue, 02 Sep 2025 00:00:00 GMT</pubDate>
      </item>
      <item>
        <title>Two</title>
        <link>https://b.example/two</link>
        <description>second &amp; third &#x41;</description>
      </item>
      <item>
        <title>No link</title>
        <description>skipped</description>
      </item>
      <item>
        <title>Empty</title>
        <link></link>
      </item>
    </channel></rss>"#;

#[test]
fn rss_items_extract_title_link_snippet_and_age() {
    let hits = parse_rss(RSS);
    assert_eq!(hits.len(), 2, "{hits:?}");
    assert_eq!(hits[0].title, "One & only");
    assert_eq!(hits[0].url, "https://a.example/one");
    assert_eq!(hits[0].snippet, "a <b>bold</b> snippet");
    assert_eq!(
        hits[0].page_age.as_deref(),
        Some("Tue, 02 Sep 2025 00:00:00 GMT")
    );
    assert_eq!(hits[1].title, "Two");
    assert_eq!(hits[1].snippet, "second & third A");
    assert!(hits[1].page_age.is_none());
}

#[test]
fn rss_malformed_input_is_empty_never_a_panic() {
    for bad in [
        "",
        "<item>",
        "<item><title>x</title>",
        "<items><item><link>https://x</link></items>",
        "not xml at all",
        "<item><title",
    ] {
        let _ = parse_rss(bad);
    }
}

#[test]
fn json_results_object_and_bare_array() {
    let v = r#"{"results":[{"url":"https://x","title":"t","snippet":"s","page_age":"1d"},{"url":""}]}"#;
    let hits = parse_json(v);
    assert_eq!(hits.len(), 1);
    assert_eq!(hits[0].url, "https://x");
    let bare = r#"[{"url":"https://y","title":"ty"}]"#;
    assert_eq!(parse_json(bare).len(), 1);
    assert!(parse_json("{nope").is_empty());
    assert!(parse_json(r#"{"nope":1}"#).is_empty());
}

#[test]
fn url_building_appends_q_and_rss_marker() {
    assert_eq!(
        build_url("http://127.0.0.1:1/search", SearchFormat::Rss, "rust async"),
        "http://127.0.0.1:1/search?q=rust%20async&format=rss"
    );
    assert_eq!(
        build_url("http://127.0.0.1:1/search?x=1", SearchFormat::Json, "a b"),
        "http://127.0.0.1:1/search?x=1&q=a%20b"
    );
}

#[test]
fn location_suffix_is_appended_to_the_query() {
    assert_eq!(with_location("paris", &None), "paris");
    let loc = val(r#"{ "city": "Paris", "region": "", "country": "FR" }"#);
    assert_eq!(with_location("weather", &Some(loc)), "weather Paris FR");
    assert_eq!(
        with_location("weather", &Some(val(r#"{ "city": " " }"#))),
        "weather",
        "blank fields are dropped"
    );
}

#[test]
fn query_of_reads_the_documented_keys() {
    assert_eq!(query_of(&val(r#"{"query":" x "}"#)), "x");
    assert_eq!(query_of(&val(r#"{"q":"y"}"#)), "y");
    assert_eq!(query_of(&val(r#"{"search_query":"z"}"#)), "z");
    assert_eq!(query_of(&val(r#"{}"#)), "");
    assert_eq!(query_of(&Json::Null), "");
}

#[test]
fn civil_from_days_known_values() {
    assert_eq!(civil_from_days(0), "1970-01-01");
    assert_eq!(civil_from_days(365), "1971-01-01");
    assert_eq!(civil_from_days(366), "1971-01-02", "1971 has 365 days");
    assert_eq!(civil_from_days(730), "1972-01-01", "1972 is a leap year");
    assert_eq!(civil_from_days(18_262), "2020-01-01");
    assert_eq!(civil_from_days(-1), "1969-12-31");
}

#[test]
fn encrypted_content_has_the_official_prefix_shape() {
    let c = encrypt(&val(r#"{"url": "https://x"}"#));
    assert!(c.starts_with("nimsearch_"), "{c}");
    // The payload decodes back to the plaintext (the model parses the
    // plaintext, the blob is an identity marker).
    let raw = URL_SAFE_NO_PAD
        .decode(c.strip_prefix("nimsearch_").unwrap().as_bytes())
        .unwrap();
    assert!(String::from_utf8(raw).unwrap().contains("https://x"));
}

#[test]
fn error_block_shape() {
    let b = out(&error_block("id1", "search_unavailable", "boom"));
    assert_eq!(b["type"], "web_search_tool_result");
    assert_eq!(b["tool_use_id"], "id1");
    assert_eq!(b["is_error"], true);
    assert_eq!(b["content"][0]["type"], "web_search_tool_result_error");
    assert_eq!(b["content"][0]["error_code"], "search_unavailable");
}

#[test]
fn url_encoding_keeps_the_unreserved_set_only() {
    assert_eq!(
        url_encode("AZaz09-._~"),
        "AZaz09-._~",
        "the unreserved characters stay"
    );
    assert_eq!(url_encode("a*b+c/d?&="), "a%2Ab%2Bc%2Fd%3F%26%3D");
    assert_eq!(url_encode("é"), "%C3%A9");
    assert_eq!(url_encode(""), "");
}

#[test]
fn xml_entities_are_unescaped() {
    assert_eq!(unescape_xml("a &lt;b&gt; &quot;c&quot; &apos;d&apos;"), "a <b> \"c\" 'd'");
    assert_eq!(unescape_xml("&#65;&#x42;"), "AB");
    assert_eq!(unescape_xml("&amp;lt;"), "&lt;", "one pass");
    assert_eq!(unescape_xml("fish &chips; here"), "fish &chips; here");
    assert_eq!(unescape_xml("tail &"), "tail &");
}

#[test]
fn feeds_skip_what_is_no_item() {
    let xml = "<rss><items><item><title>t</title><link>https://x/1</link></item></items></rss>";
    let hits = parse_rss(xml);
    assert_eq!(hits.len(), 1, "{hits:?}");
    assert_eq!(hits[0].url, "https://x/1");
    assert_eq!(hits[0].snippet, "");
    assert!(parse_rss("<item><link>https://x</link>").is_empty());
}

#[test]
fn times_are_utc() {
    assert_eq!(utc_time(0), "1970-01-01T00:00:00Z");
    assert_eq!(utc_time(1_582_979_696), "2020-02-29T12:34:56Z");
    assert_eq!(utc_time(86_399), "1970-01-01T23:59:59Z");
    assert_eq!(utc_time(253_402_300_799), "9999-12-31T23:59:59Z");
}

#[test]
fn dates_go_both_ways_from_the_epoch() {
    assert_eq!(civil_from_days(59), "1970-03-01");
    assert_eq!(civil_from_days(789), "1972-02-29");
    assert_eq!(civil_from_days(11_016), "2000-02-29");
    assert_eq!(civil_from_days(-25_508), "1900-03-01", "1900 is no leap year");
}

fn meta(max_uses: Option<u32>) -> WebSearchMeta {
    WebSearchMeta {
        name: "web_search".into(),
        max_uses,
        user_location: Some(val(r#"{"city":"Paris"}"#)),
    }
}

#[test]
fn searches_are_planned_before_any_request() {
    let mut uses = 0;
    match plan_search("id", &val(r#"{"query":" rust "}"#), &meta(Some(1)), &mut uses) {
        SearchStep::Ask {
            query,
            search_query,
        } => {
            assert_eq!(query, "rust");
            assert_eq!(search_query, "rust Paris");
        }
        other => panic!("{other:?}"),
    }
    assert_eq!(uses, 1);
    // The cap is checked before any request.
    match plan_search("id", &val(r#"{"query":"rust"}"#), &meta(Some(1)), &mut uses) {
        SearchStep::Answered(o) => {
            assert_eq!(o.requests, 0);
            let b = out(&o.outward);
            assert_eq!(b["content"][0]["error_code"], "max_uses_exceeded");
            assert_eq!(
                b["content"][0]["message"],
                "web_search has reached the request's maximum call count"
            );
            assert_eq!(
                codec::print(&o.model),
                r#"{"error":"max_uses_exceeded","query":"rust"}"#
            );
        }
        other => panic!("{other:?}"),
    }
    assert_eq!(uses, 1, "a refused call uses nothing up");
}

#[test]
fn calls_without_a_usable_query_are_answered() {
    let mut uses = 0;
    match plan_search("id", &val("[]"), &meta(None), &mut uses) {
        SearchStep::Answered(o) => {
            assert_eq!(o.requests, 0, "no provider request was made");
            assert_eq!(out(&o.outward)["content"][0]["error_code"], "missing_query");
            assert_eq!(codec::print(&o.model), r#"{"error":"missing_query"}"#);
        }
        other => panic!("{other:?}"),
    }
    let at_limit = "q".repeat(MAX_QUERY_LEN);
    let input = |q: &str| val(&format!(r#"{{"query":"{q}"}}"#));
    assert!(matches!(
        plan_search("id", &input(&at_limit), &meta(None), &mut uses),
        SearchStep::Ask { .. }
    ));
    match plan_search("id", &input(&format!("{at_limit}q")), &meta(None), &mut uses) {
        SearchStep::Answered(o) => {
            assert_eq!(o.requests, 0);
            assert_eq!(
                out(&o.outward)["content"][0]["message"],
                "query must be at most 512 characters"
            );
        }
        other => panic!("{other:?}"),
    }
    assert_eq!(uses, 1);
}

#[test]
fn provider_answers_become_results() {
    let body = r#"[{"url":"https://a","title":"A","snippet":"s","page_age":"1d"},{"url":""},{"url":"https://b","title":"B"},{"url":"https://c"}]"#;
    let o = finish_search("tid", "q", Some(body), SearchFormat::Json, 2, 0);
    assert_eq!(o.requests, 1);
    let outward = out(&o.outward);
    assert_eq!(outward["type"], "web_search_tool_result");
    assert_eq!(outward["tool_use_id"], "tid");
    assert!(outward.get("is_error").is_none());
    let content = outward["content"].as_array().unwrap();
    assert_eq!(content.len(), 2, "the linked hits, at most two");
    assert_eq!(content[0]["type"], "web_search_result");
    assert_eq!(content[0]["page_age"], "1d");
    assert!(content[1].get("page_age").is_none());
    let model = out(&o.model);
    assert_eq!(model["query"], "q");
    assert_eq!(model["results"][1]["url"], "https://b");
    assert_eq!(model["results"][1]["page_age"], Value::Null);
    assert_eq!(model["results"][0]["retrieved_at"], "1970-01-01T00:00:00Z");
    // The blob is the unpadded URL-safe base64 of the plaintext payload.
    let plain = r#"{"page_age":"1d","query":"q","retrieved_at":"1970-01-01T00:00:00Z","snippet":"s","title":"A","url":"https://a"}"#;
    let blob = content[0]["encrypted_content"].as_str().unwrap();
    assert_eq!(blob, format!("nimsearch_{}", URL_SAFE_NO_PAD.encode(plain)));
    assert_eq!(
        blob.trim_start_matches("nimsearch_"),
        URL_SAFE.encode(plain).trim_end_matches('=')
    );
    assert_eq!(model["results"][0]["encrypted_content"], blob);
}

#[test]
fn zero_results_asked_for_still_shows_one() {
    let o = finish_search("t", "q", Some(RSS), SearchFormat::Rss, 0, 0);
    assert_eq!(out(&o.outward)["content"].as_array().unwrap().len(), 1);
}

#[test]
fn a_failed_provider_is_never_silent() {
    let o = finish_search("t", "q", None, SearchFormat::Rss, 5, 0);
    assert_eq!(o.requests, 1);
    let b = out(&o.outward);
    assert_eq!(b["is_error"], true);
    assert_eq!(b["content"][0]["error_code"], "search_unavailable");
    assert_eq!(
        b["content"][0]["message"],
        "the web_search provider request failed"
    );
    assert_eq!(
        codec::print(&o.model),
        r#"{"error":"search_unavailable","query":"q"}"#
    );
}

#[test]
fn provider_bodies_are_weighed() {
    assert_eq!(provider_body(200, Some("x".into())).as_deref(), Some("x"));
    assert_eq!(provider_body(204, Some("".into())), None);
    assert_eq!(provider_body(200, None), None);
    assert_eq!(provider_body(302, Some("x".into())), None);
    assert_eq!(provider_body(500, Some("x".into())), None);
}

#[test]
fn only_item_elements_are_items() {
    let hits = parse_rss(
        "<items><item><link>https://a</link></item><item2><link>https://b</link></item2>\
         <item rdf:about=\"x\"><link>https://c</link></item></items>",
    );
    let urls: Vec<&str> = hits.iter().map(|h| h.url.as_str()).collect();
    assert_eq!(urls, ["https://a", "https://c"]);
    // A letter beyond ASCII is a letter too.
    assert!(parse_rss("<item\u{e9}><link>https://a</link></item>").is_empty());
}

#[test]
fn hits_are_copied_whole() {
    let hit = SearchHit {
        title: "t".into(),
        url: "https://a".into(),
        snippet: "s".into(),
        page_age: Some("today".into()),
    };
    assert_eq!(hit.clone(), hit);
    assert_eq!(
        SearchHit::default(),
        SearchHit {
            title: String::new(),
            url: String::new(),
            snippet: String::new(),
            page_age: None,
        }
    );
}

#[test]
fn an_item_in_front_leaves_the_rest_alone() {
    let items = [
        "<item><link> https://a </link><title> t </title><pubDate> </pubDate></item>",
        "<item><title>no link</title></item>",
        "<item id=\"1\"><link><![CDATA[ https://b ]]></link><dc:date>today</dc:date></item>",
    ];
    let rests = [
        "",
        "<item><link>https://c</link></item>",
        "tail <items><item><link>https://d</link></item> <item><link>open",
        "</item><item>",
    ];
    for a in items {
        let own = parse_rss(a);
        assert!(own.len() <= 1);
        for b in rests {
            let mut all = own.clone();
            all.extend(parse_rss(b));
            assert_eq!(parse_rss(&format!("{a}{b}")), all, "{a} before {b}");
            for hit in &all {
                assert!(!hit.url.is_empty());
                for text in [&hit.url, &hit.title, &hit.snippet] {
                    assert_eq!(text.trim(), text);
                }
                assert_ne!(hit.page_age.as_deref(), Some(""));
            }
        }
    }
    assert_eq!(parse_rss(items[0])[0].title, "t");
    assert_eq!(parse_rss(items[2])[0].url, "https://b");
}
