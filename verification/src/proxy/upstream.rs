//! What goes to the upstream, and how its answer is handed on.
use crate::buffers::{content, share, slice_of};
use crate::proxy::replies::{bad_gateway, bad_gateway_reply, Reply};
use crate::proxy::retry::is_success;
use crate::text::{concat, opt_str};
use bytes::Bytes;
use vstd::prelude::*;
use vstd::utf8::encode_utf8;

verus! {

/// A request to the upstream: the caller's credentials and other headers stay
/// behind.
#[derive(Debug)]
pub struct UpstreamRequest {
    pub url: String,
    pub headers: Vec<(&'static str, Vec<u8>)>,
    pub body: Option<Bytes>,
}

/// The view of an optional header value.
pub open spec fn opt_bytes(o: Option<&[u8]>) -> Option<Seq<u8>> {
    match o {
        Some(b) => Some(b@),
        None => None,
    }
}

/// The views of a list of headers.
pub open spec fn headers_view(headers: Seq<(&'static str, Vec<u8>)>) -> Seq<(Seq<char>, Seq<u8>)> {
    Seq::new(headers.len(), |i: int| (headers[i].0@, headers[i].1@))
}

/// The headers with one more, where there is a value for it.
pub open spec fn with_header(
    headers: Seq<(Seq<char>, Seq<u8>)>,
    name: Seq<char>,
    value: Option<Seq<u8>>,
) -> Seq<(Seq<char>, Seq<u8>)> {
    match value {
        Some(v) => headers.push((name, v)),
        None => headers,
    }
}

/// The headers a request carries upstream: the lane's key, and of the
/// caller's own the content type and what it accepts.
pub open spec fn upstream_headers(
    key: Seq<char>,
    content_type: Option<Seq<u8>>,
    accept: Option<Seq<u8>>,
) -> Seq<(Seq<char>, Seq<u8>)> {
    with_header(
        with_header(
            seq![("authorization"@, encode_utf8("Bearer "@ + key))],
            "content-type"@,
            content_type,
        ),
        "accept"@,
        accept,
    )
}

fn push_header(
    headers: &mut Vec<(&'static str, Vec<u8>)>,
    name: &'static str,
    value: Option<&[u8]>,
)
    ensures
        headers_view(final(headers)@) == with_header(
            headers_view(old(headers)@),
            name@,
            opt_bytes(value),
        ),
{
    if let Some(v) = value {
        let ghost before = headers_view(headers@);
        let bytes = vstd::slice::slice_to_vec(v);
        headers.push((name, bytes));
        assert(headers_view(headers@) =~= before.push((name@, v@)));
    }
}

/// The request to send upstream. An empty body is not sent.
pub fn upstream_request(
    base_url: &str,
    path_query: &str,
    content_type: Option<&[u8]>,
    accept: Option<&[u8]>,
    key: &str,
    body: &Bytes,
) -> (r: UpstreamRequest)
    ensures
        r.url@ == base_url@ + path_query@,
        headers_view(r.headers@) == upstream_headers(
            key@,
            opt_bytes(content_type),
            opt_bytes(accept),
        ),
        match r.body {
            Some(b) => content(*body).len() > 0 && content(b) == content(*body),
            None => content(*body).len() == 0,
        },
{
    let mut headers: Vec<(&'static str, Vec<u8>)> = Vec::new();
    let bearer = concat("Bearer ", key);
    headers.push(("authorization", vstd::slice::slice_to_vec(bearer.as_str().as_bytes())));
    assert(headers_view(headers@) =~= seq![("authorization"@, encode_utf8("Bearer "@ + key@))]);
    push_header(&mut headers, "content-type", content_type);
    push_header(&mut headers, "accept", accept);
    let body = if slice_of(body).len() == 0 {
        None
    } else {
        Some(share(body))
    };
    UpstreamRequest { url: concat(base_url, path_query), headers, body }
}

/// The address of the model catalog.
pub fn models_url(base_url: &str) -> (r: String)
    ensures
        r@ == base_url@ + "/v1/models"@,
{
    concat(base_url, "/v1/models")
}

/// An upstream answer as it is handed on.
#[derive(Debug)]
pub struct Relayed {
    pub status: u16,
    pub content_type: String,
    pub body: Bytes,
    /// Whether the body is read for token accounting.
    pub observe: bool,
}

/// The status under which an upstream's answer is handed on.
pub open spec fn relayed_status(status: u16) -> u16 {
    if 100 <= status < 1000 {
        status
    } else {
        502
    }
}

/// The content type under which an upstream's answer is handed on.
pub open spec fn relayed_type(content_type: Option<Seq<char>>) -> Seq<char> {
    match content_type {
        Some(t) => t,
        None => "application/json"@,
    }
}

/// An answer is handed on under upstream's own status and content type: any
/// status that there can be stands, and only a missing type is filled in.
pub proof fn law_answers_are_handed_on(status: u16, content_type: Option<Seq<char>>)
    ensures
        100 <= status <= 999 ==> relayed_status(status) == status,
        status < 100 || status > 999 ==> relayed_status(status) == 502,
        content_type is Some ==> relayed_type(content_type) == content_type->0,
        content_type is None ==> relayed_type(content_type) == "application/json"@,
{
}

/// Hand an upstream answer on as it is; `body` is `None` where it stalled or
/// broke off, which is a gateway error rather than a truncated success.
pub fn relay(status: u16, content_type: Option<&str>, body: Option<Bytes>) -> (r: Result<
    Relayed,
    Reply,
>)
    ensures
        match (body, r) {
            (None, Err(reply)) => reply@ == bad_gateway_reply(),
            (Some(b), Ok(relayed)) => {
                &&& relayed.status == if 100 <= status < 1000 {
                    status
                } else {
                    502
                }
                &&& relayed.content_type@ == match opt_str(content_type) {
                    Some(t) => t,
                    None => "application/json"@,
                }
                &&& relayed.status == relayed_status(status)
                &&& relayed.content_type@ == relayed_type(opt_str(content_type))
                &&& relayed.body == b
                &&& relayed.observe == (200 <= status < 300)
            },
            _ => false,
        },
{
    let body = match body {
        Some(body) => body,
        None => return Err(bad_gateway()),
    };
    Ok(
        Relayed {
            status: if 100 <= status && status < 1000 {
                status
            } else {
                502
            },
            content_type: match content_type {
                Some(t) => t.to_owned(),
                None => "application/json".to_owned(),
            },
            body,
            observe: is_success(status),
        },
    )
}

}
