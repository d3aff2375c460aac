//! The proxy's own answers: the error envelope and the statuses it comes
//! with.
use crate::bridge::sse::{error_frame, StreamTranslator};
use crate::buffers::{buffer_of, content};
use crate::codec::{json_text, print};
use crate::json::{empty_object, Json, JsonV};
use crate::text::{concat3, decimal, decimal_text};
use bytes::Bytes;
use vstd::prelude::*;
use vstd::utf8::encode_utf8;

verus! {

/// A complete answer: a status, a header beside the content type where one
/// is due, and a JSON body.
#[derive(Debug)]
pub struct Reply {
    pub status: u16,
    pub header: Option<(&'static str, &'static str)>,
    pub body: Bytes,
}

/// The view of a [`Reply`].
#[verifier::ext_equal]
pub struct ReplyV {
    pub status: u16,
    pub header: Option<(Seq<char>, Seq<char>)>,
    pub body: Seq<u8>,
}

impl View for Reply {
    type V = ReplyV;

    open spec fn view(&self) -> ReplyV {
        ReplyV {
            status: self.status,
            header: match self.header {
                Some((name, value)) => Some((name@, value@)),
                None => None,
            },
            body: content(self.body),
        }
    }
}

/// The bytes of a JSON body.
pub open spec fn json_body(v: JsonV) -> Seq<u8> {
    encode_utf8(json_text(v))
}

/// An answer with a JSON body and no header of its own.
pub open spec fn plain_reply(status: u16, v: JsonV) -> ReplyV {
    ReplyV { status, header: None, body: json_body(v) }
}

/// The proxy's standard error envelope: `{"error":{message,type,code}}`.
pub open spec fn proxy_error(code: Seq<char>, message: Seq<char>) -> JsonV {
    empty_object().with(
        "error"@,
        empty_object().with("message"@, JsonV::Str(message)).with(
            "type"@,
            JsonV::Str("proxy_error"@),
        ).with("code"@, JsonV::Str(code)),
    )
}

/// The in-stream error of the OpenAI wire: the envelope, then the end mark.
pub open spec fn sse_error_bytes(code: Seq<char>, message: Seq<char>) -> Seq<u8> {
    encode_utf8(
        "data: "@ + json_text(proxy_error(code, message)) + "\n\ndata: [DONE]\n\n"@,
    )
}

/// The answer to a request without a valid client key.
pub open spec fn unauthorized_reply() -> ReplyV {
    ReplyV {
        status: 401,
        header: Some(("www-authenticate"@, "Bearer"@)),
        body: json_body(
            proxy_error(
                "unauthorized"@,
                "missing or invalid proxy API key (Authorization: Bearer ...)"@,
            ),
        ),
    }
}

/// The answer to a request with a malformed deadline.
pub open spec fn invalid_deadline_reply() -> ReplyV {
    plain_reply(
        400,
        proxy_error(
            "invalid_deadline"@,
            "X-Nim-Proxy-Deadline-Ms must be one unsigned decimal millisecond value"@,
        ),
    )
}

/// The answer to a request past the in-flight cap.
pub open spec fn overloaded_reply(max_inflight: usize) -> ReplyV {
    ReplyV {
        status: 503,
        header: Some(("retry-after"@, "5"@)),
        body: json_body(
            proxy_error(
                "overloaded"@,
                "proxy at capacity ("@ + decimal(max_inflight as nat)
                    + " concurrent requests); retry shortly"@,
            ),
        ),
    }
}

/// The answer when the upstream's own failed.
pub open spec fn bad_gateway_reply() -> ReplyV {
    plain_reply(502, proxy_error("bad_gateway"@, "upstream response failed or timed out"@))
}

/// The answer to a request whose deadline passed.
pub open spec fn deadline_exceeded_reply() -> ReplyV {
    plain_reply(504, proxy_error("deadline_exceeded"@, "proxy request deadline exceeded"@))
}

/// The answer when no slot came in time.
pub open spec fn gateway_timeout_reply(max_wait_secs: u64, pool_len: usize) -> ReplyV {
    plain_reply(
        504,
        proxy_error(
            "rate_limited"@,
            "no upstream slot became available within "@ + decimal(max_wait_secs as nat) + "s (all "@
                + decimal(pool_len as nat) + " keys saturated)"@,
        ),
    )
}

/// The bytes of a JSON value's text.
pub fn json_bytes(v: &Json) -> (r: Bytes)
    ensures
        content(r) == json_body(v@),
{
    buffer_of(print(v))
}

/// An answer with a JSON body.
pub fn json_response(status: u16, v: &Json) -> (r: Reply)
    ensures
        r@ == plain_reply(status, v@),
{
    Reply { status, header: None, body: json_bytes(v) }
}

/// The proxy's standard error envelope.
pub fn proxy_error_json(code: &str, message: &str) -> (r: Json)
    ensures
        r@ == proxy_error(code@, message@),
{
    Json::object().with(
        "error",
        Json::object().with("message", Json::text(message)).with(
            "type",
            Json::text("proxy_error"),
        ).with("code", Json::text(code)),
    )
}

pub fn sse_error_with_code(code: &str, message: &str) -> (r: Bytes)
    ensures
        content(r) == sse_error_bytes(code@, message@),
{
    let event = print(&proxy_error_json(code, message));
    buffer_of(concat3("data: ", event.as_str(), "\n\ndata: [DONE]\n\n"))
}

pub fn sse_error(message: &str) -> (r: Bytes)
    ensures
        content(r) == sse_error_bytes("upstream_unavailable"@, message@),
{
    sse_error_with_code("upstream_unavailable", message)
}

/// Terminal in-stream error frame: the OpenAI-wire proxy envelope on the
/// chat path; once the bridge translator committed to an Anthropic event,
/// an Anthropic `error` event instead (after `message_start` the client no
/// longer parses OpenAI SSE).
pub fn stream_error_frame(
    translator: &Option<StreamTranslator>,
    code: &str,
    message: &str,
) -> (r: Bytes)
    ensures
        content(r) == if translator is Some && translator->0@.committed {
            error_frame(code@, message@)
        } else {
            sse_error_bytes(code@, message@)
        },
{
    match translator {
        Some(t) => {
            if t.committed() {
                return t.error_event(code, message);
            }
        },
        None => {},
    }
    sse_error_with_code(code, message)
}

pub fn unauthorized() -> (r: Reply)
    ensures
        r@ == unauthorized_reply(),
{
    let body = proxy_error_json(
        "unauthorized",
        "missing or invalid proxy API key (Authorization: Bearer ...)",
    );
    Reply { status: 401, header: Some(("www-authenticate", "Bearer")), body: json_bytes(&body) }
}

pub fn invalid_deadline() -> (r: Reply)
    ensures
        r@ == invalid_deadline_reply(),
{
    json_response(
        400,
        &proxy_error_json(
            "invalid_deadline",
            "X-Nim-Proxy-Deadline-Ms must be one unsigned decimal millisecond value",
        ),
    )
}

pub fn deadline_exceeded() -> (r: Reply)
    ensures
        r@ == deadline_exceeded_reply(),
{
    json_response(
        504,
        &proxy_error_json("deadline_exceeded", "proxy request deadline exceeded"),
    )
}

pub fn overloaded(max_inflight: usize) -> (r: Reply)
    ensures
        r@ == overloaded_reply(max_inflight),
{
    let message = concat3(
        "proxy at capacity (",
        decimal_text(max_inflight as u128).as_str(),
        " concurrent requests); retry shortly",
    );
    let body = proxy_error_json("overloaded", message.as_str());
    Reply { status: 503, header: Some(("retry-after", "5")), body: json_bytes(&body) }
}

pub fn bad_gateway() -> (r: Reply)
    ensures
        r@ == bad_gateway_reply(),
{
    json_response(502, &proxy_error_json("bad_gateway", "upstream response failed or timed out"))
}

pub fn gateway_timeout(max_wait_secs: u64, pool_len: usize) -> (r: Reply)
    ensures
        r@ == gateway_timeout_reply(max_wait_secs, pool_len),
{
    let mut message = concat3(
        "no upstream slot became available within ",
        decimal_text(max_wait_secs as u128).as_str(),
        "s (all ",
    );
    message.append(decimal_text(pool_len as u128).as_str());
    message.append(" keys saturated)");
    json_response(504, &proxy_error_json("rate_limited", message.as_str()))
}

}
