//! The shape of a request: counts and modes for metrics, never content.
use crate::json::{lemma_items_view, opt_json, Json, JsonV, Num};
use crate::text::same;
use vstd::prelude::*;

verus! {

/// The request's tool-selection mode.
pub open spec fn choice_mode(v: JsonV) -> Seq<char> {
    match v.get("tool_choice"@) {
        Some(JsonV::Str(s)) => if s == "auto"@ || s == "none"@ || s == "required"@ {
            s
        } else {
            "other"@
        },
        Some(JsonV::Object(_)) => "named"@,
        _ => "auto"@,
    }
}

/// The number of items of an array member.
pub open spec fn array_len(v: JsonV, key: Seq<char>) -> Option<nat> {
    match v.get_array(key) {
        Some(items) => Some(items.len()),
        None => None,
    }
}

/// The number of tools offered: `tools`, or legacy `functions`.
pub open spec fn tools_count(v: JsonV) -> Option<nat> {
    match array_len(v, "tools"@) {
        Some(n) => Some(n),
        None => array_len(v, "functions"@),
    }
}

/// Whether the request asks for JSON output.
pub open spec fn json_mode(v: JsonV) -> bool {
    match v.get("response_format"@) {
        Some(f) => f.get_str("type"@) == Some("json_object"@) || f.get_str("type"@) == Some(
            "json_schema"@,
        ),
        None => false,
    }
}

/// The output cap: `max_tokens`, else `max_completion_tokens`.
pub open spec fn output_cap(v: JsonV) -> Option<u64> {
    match v.get_u64("max_tokens"@) {
        Some(n) => Some(n),
        None => v.get_u64("max_completion_tokens"@),
    }
}

/// The temperature, where it is a number.
pub open spec fn temperature_of(v: JsonV) -> Option<JsonV> {
    match v.get("temperature"@) {
        Some(t) => if t is Int || t is Float {
            Some(t)
        } else {
            None
        },
        None => None,
    }
}

/// The request's tool-selection mode, bounded to a small enum. Called only
/// when the request offers tools, so a missing `tool_choice` means the
/// provider default (auto).
pub fn tool_choice_mode(v: &Json) -> (r: &'static str)
    ensures
        r@ == choice_mode(v@),
{
    match v.get("tool_choice") {
        Some(Json::Str(s)) => {
            if same(s.as_str(), "auto") {
                "auto"
            } else if same(s.as_str(), "none") {
                "none"
            } else if same(s.as_str(), "required") {
                "required"
            } else {
                "other"
            }
        },
        Some(Json::Object(_)) => "named",
        _ => "auto",
    }
}

fn length_of(v: &Json, key: &str) -> (r: Option<usize>)
    ensures
        match (r, array_len(v@, key@)) {
            (Some(a), Some(b)) => a == b,
            (None, None) => true,
            _ => false,
        },
{
    match v.get_array(key) {
        Some(items) => {
            proof {
                lemma_items_view(items@);
            }
            Some(items.len())
        },
        None => None,
    }
}

/// Count tools offered in a request body (`tools`, or legacy `functions`).
pub fn count_tools(v: &Json) -> (r: Option<usize>)
    ensures
        match (r, tools_count(v@)) {
            (Some(a), Some(b)) => a == b,
            (None, None) => true,
            _ => false,
        },
{
    match length_of(v, "tools") {
        Some(n) => Some(n),
        None => length_of(v, "functions"),
    }
}

/// Whether the request asks for structured (JSON) output.
pub fn is_json_mode(v: &Json) -> (r: bool)
    ensures
        r == json_mode(v@),
{
    match v.get("response_format") {
        Some(f) => match f.get_str("type") {
            Some(t) => same(t, "json_object") || same(t, "json_schema"),
            None => false,
        },
        None => false,
    }
}

/// What a request asked for: the stream flag, and of a body that is JSON
/// the conversation depth, the tools and their selection mode, the output
/// cap, the temperature and the JSON mode. Counts and sizes only — never
/// message content.
#[derive(Debug)]
pub struct RequestShape {
    pub stream: bool,
    pub messages: Option<usize>,
    pub tools: Option<usize>,
    /// The selection mode; only where tools are offered.
    pub tool_choice: Option<&'static str>,
    pub max_tokens: Option<u64>,
    pub temperature: Option<Num>,
    pub json_mode: bool,
}

/// The view of an optional length.
pub open spec fn opt_len(o: Option<usize>) -> Option<nat> {
    match o {
        Some(n) => Some(n as nat),
        None => None,
    }
}

/// Whether `shape` is the shape of a request.
pub open spec fn is_shape_of(shape: RequestShape, parsed: Option<JsonV>, stream: bool) -> bool {
    &&& shape.stream == stream
    &&& match parsed {
        None => {
            &&& shape.messages is None
            &&& shape.tools is None
            &&& shape.tool_choice is None
            &&& shape.max_tokens is None
            &&& shape.temperature is None
            &&& !shape.json_mode
        },
        Some(v) => {
            &&& opt_len(shape.messages) == array_len(v, "messages"@)
            &&& opt_len(shape.tools) == tools_count(v)
            &&& shape.tool_choice is Some <==> tools_count(v) is Some
            &&& shape.tool_choice is Some ==> shape.tool_choice->0@ == choice_mode(v)
            &&& shape.max_tokens == output_cap(v)
            &&& shape.json_mode == json_mode(v)
            &&& match shape.temperature {
                Some(t) => temperature_of(v) == Some(crate::json::number_view(t)),
                None => temperature_of(v) is None,
            }
        },
    }
}

/// The shape of a request.
pub fn request_shape(parsed: Option<&Json>, wants_stream: bool) -> (r: RequestShape)
    ensures
        is_shape_of(r, opt_json(parsed), wants_stream),
{
    let v = match parsed {
        None => {
            return RequestShape {
                stream: wants_stream,
                messages: None,
                tools: None,
                tool_choice: None,
                max_tokens: None,
                temperature: None,
                json_mode: false,
            };
        },
        Some(v) => v,
    };
    let tools = count_tools(v);
    let tool_choice = match tools {
        Some(_) => Some(tool_choice_mode(v)),
        None => None,
    };
    let max_tokens = match v.get_u64("max_tokens") {
        Some(n) => Some(n),
        None => v.get_u64("max_completion_tokens"),
    };
    let temperature = match v.get("temperature") {
        Some(Json::Number(n)) => Some(*n),
        _ => None,
    };
    RequestShape {
        stream: wants_stream,
        messages: length_of(v, "messages"),
        tools,
        tool_choice,
        max_tokens,
        temperature,
        json_mode: is_json_mode(v),
    }
}

}
