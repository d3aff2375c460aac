//! The answer to a Messages request: the upstream's, in the Anthropic
//! dialect.
use crate::bridge::request::{metas, ToolMeta, ToolMetaV};
use crate::bridge::response::{chat_to_message, message_of_completion};
use crate::buffers::slice_of;
use crate::codec::{json_of_bytes, parse_bytes};
use crate::json::{empty_object, opt_owned, Json, JsonV};
use crate::proxy::plan::opt_content;
use crate::proxy::replies::{
    bad_gateway, bad_gateway_reply, json_response, plain_reply, Reply, ReplyV,
};
use bytes::Bytes;
use vstd::prelude::*;

verus! {

broadcast use vstd::string::group_string_axioms;

/// The error types a client of the Messages endpoint may meet.
pub open spec fn error_kinds() -> Seq<Seq<char>> {
    seq![
        "invalid_request_error"@,
        "authentication_error"@,
        "not_found_error"@,
        "rate_limit_error"@,
        "overloaded_error"@,
        "api_error"@,
    ]
}

/// The error type that stands for a status: an error without a type of its
/// own, an expired deadline with them, is an `api_error`.
pub open spec fn error_kind(status: u16) -> Seq<char> {
    if status == 400 {
        "invalid_request_error"@
    } else if status == 401 || status == 403 {
        "authentication_error"@
    } else if status == 404 {
        "not_found_error"@
    } else if status == 429 {
        "rate_limit_error"@
    } else if status == 503 {
        "overloaded_error"@
    } else {
        "api_error"@
    }
}

/// Where an upstream error body holds its message: `error.message`, else
/// `message`, else `detail`.
pub open spec fn error_member(v: JsonV) -> Option<JsonV> {
    let nested = match v.get("error"@) {
        Some(e) => e.get("message"@),
        None => None,
    };
    match nested {
        Some(m) => Some(m),
        None => match v.get("message"@) {
            Some(m) => Some(m),
            None => v.get("detail"@),
        },
    }
}

/// The message of an upstream error.
pub open spec fn error_detail(parsed: Option<JsonV>) -> Seq<char> {
    let fallback = "upstream request failed"@;
    match parsed {
        Some(v) => match error_member(v) {
            Some(m) => match m.as_str() {
                Some(s) => s,
                None => fallback,
            },
            None => fallback,
        },
        None => fallback,
    }
}

/// The Anthropic error envelope.
pub open spec fn error_envelope(kind: Seq<char>, message: Seq<char>) -> JsonV {
    empty_object().with("type"@, JsonV::Str("error"@)).with(
        "error"@,
        empty_object().with("type"@, JsonV::Str(kind)).with("message"@, JsonV::Str(message)),
    )
}

/// The answer to a Messages request, given the upstream's status, its body
/// where that could be read, and what the body parsed to.
pub open spec fn messages_reply(
    status: u16,
    body: Option<Seq<u8>>,
    parsed: Option<JsonV>,
    model: Seq<char>,
    tools: Seq<ToolMetaV>,
) -> ReplyV {
    if 200 <= status < 300 {
        match body {
            None => bad_gateway_reply(),
            Some(bytes) => match parsed {
                Some(completion) => plain_reply(
                    status,
                    message_of_completion(completion, model, tools, None),
                ),
                None => ReplyV { status, header: None, body: bytes },
            },
        }
    } else {
        plain_reply(status, error_envelope(error_kind(status), error_detail(parsed)))
    }
}

/// What a body parsed to, where it could be read.
pub open spec fn parsed_body(body: Option<Seq<u8>>) -> Option<JsonV> {
    match body {
        Some(bytes) => json_of_bytes(bytes),
        None => None,
    }
}

/// The error type that stands for a status.
pub fn kind_of_status(status: u16) -> (r: &'static str)
    ensures
        r@ == error_kind(status),
{
    if status == 400 {
        "invalid_request_error"
    } else if status == 401 || status == 403 {
        "authentication_error"
    } else if status == 404 {
        "not_found_error"
    } else if status == 429 {
        "rate_limit_error"
    } else if status == 503 {
        "overloaded_error"
    } else {
        "api_error"
    }
}

/// The message of an upstream error.
fn detail_of(parsed: &Option<Json>) -> (r: String)
    ensures
        r@ == error_detail(opt_owned(*parsed)),
{
    let member = match parsed {
        Some(v) => {
            let nested = match v.get("error") {
                Some(e) => e.get("message"),
                None => None,
            };
            match nested {
                Some(m) => Some(m),
                None => match v.get("message") {
                    Some(m) => Some(m),
                    None => v.get("detail"),
                },
            }
        },
        None => None,
    };
    match member {
        Some(m) => match m.as_str() {
            Some(s) => s.to_owned(),
            None => "upstream request failed".to_owned(),
        },
        None => "upstream request failed".to_owned(),
    }
}

/// Finish a bridge response: a success is converted to the Anthropic
/// message; a non-2xx is re-shape-mapped into the Anthropic error envelope
/// with the same status code, so the client gets a parseable error.
/// Unparseable success bodies pass through untouched — the pipeline already
/// settled the request, so a 2xx is never dropped. `body` is `None` where
/// it could not be read.
pub fn anthropic_finish(
    status: u16,
    body: Option<Bytes>,
    request_model: &str,
    tool_meta: &[ToolMeta],
) -> (r: Reply)
    ensures
        r@ == messages_reply(
            status,
            opt_content(body),
            parsed_body(opt_content(body)),
            request_model@,
            metas(tool_meta@),
        ),
{
    let parsed = match &body {
        Some(bytes) => parse_bytes(slice_of(bytes)),
        None => None,
    };
    anthropic_finish_parsed(status, body, parsed, request_model, tool_meta)
}

/// Finish a bridge response, given what its body parsed to.
pub fn anthropic_finish_parsed(
    status: u16,
    body: Option<Bytes>,
    parsed: Option<Json>,
    request_model: &str,
    tool_meta: &[ToolMeta],
) -> (r: Reply)
    ensures
        r@ == messages_reply(
            status,
            opt_content(body),
            opt_owned(parsed),
            request_model@,
            metas(tool_meta@),
        ),
{
    if 200 <= status && status < 300 {
        match body {
            None => bad_gateway(),
            Some(bytes) => match &parsed {
                Some(completion) => json_response(
                    status,
                    &chat_to_message(completion, request_model, tool_meta),
                ),
                None => Reply { status, header: None, body: bytes },
            },
        }
    } else {
        let detail = detail_of(&parsed);
        json_response(
            status,
            &Json::object().with("type", Json::text("error")).with(
                "error",
                Json::object().with("type", Json::text(kind_of_status(status))).with(
                    "message",
                    Json::Str(detail),
                ),
            ),
        )
    }
}

/// Whatever the status of an upstream error, the envelope's error type is one
/// of the published ones.
pub proof fn law_error_kinds_are_published(
    status: u16,
    body: Option<Seq<u8>>,
    parsed: Option<JsonV>,
    model: Seq<char>,
    tools: Seq<ToolMetaV>,
)
    requires
        !(200 <= status < 300),
    ensures
        error_kinds().contains(error_kind(status)),
        messages_reply(status, body, parsed, model, tools) == plain_reply(
            status,
            error_envelope(error_kind(status), error_detail(parsed)),
        ),
{
    let kinds = error_kinds();
    let i: int = if status == 400 {
        0
    } else if status == 401 || status == 403 {
        1
    } else if status == 404 {
        2
    } else if status == 429 {
        3
    } else if status == 503 {
        4
    } else {
        5
    };
    assert(kinds[i] == error_kind(status));
}

/// The status of an upstream error is the status of its answer.
pub proof fn law_error_status_is_kept(
    status: u16,
    body: Option<Seq<u8>>,
    parsed: Option<JsonV>,
    model: Seq<char>,
    tools: Seq<ToolMetaV>,
)
    requires
        !(200 <= status < 300) || body is Some,
    ensures
        messages_reply(status, body, parsed, model, tools).status == status,
{
}

}
