//! How a request is served: the labels it is measured by, the body that
//! goes upstream, and whether it streams.
use crate::bridge::error::{BridgeError, BridgeErrorV};
use crate::bridge::request::{payload_of, to_chat_payload, ChatPayload, ChatPayloadV};
use crate::bridge::sse::StreamMeta;
use crate::buffers::{content, slice_of};
use crate::codec::{json_of_bytes, parse_bytes};
use crate::json::{empty_object, opt_json, opt_owned, Json, JsonV};
use crate::proxy::affinity::{affinity, conversation_writes};
use crate::proxy::labels::{
    bounded, client_names, label_model, label_of, label_path, messages_stream_meta, path_label,
    seen_after, LabelSet, MODEL_LABEL_CAP,
};
use crate::proxy::replies::{
    json_body, json_bytes, json_response, plain_reply, proxy_error, proxy_error_json, Reply,
};
use crate::proxy::shape::{is_shape_of, request_shape, RequestShape};
use crate::text::same;
use bytes::Bytes;
use std::collections::hash_map::DefaultHasher;
use vstd::prelude::*;
use vstd::std_specs::hash::DefaultHasherAdditionalSpecFns;

verus! {

broadcast use vstd::string::group_string_axioms;

/// The model a body names; `none` where it names none.
pub open spec fn named_model(parsed: Option<JsonV>) -> Seq<char> {
    match parsed {
        Some(v) => match v.get_str("model"@) {
            Some(m) => m,
            None => "none"@,
        },
        None => "none"@,
    }
}

/// Whether a body asks for a stream.
pub open spec fn asks_stream(parsed: Option<JsonV>) -> bool {
    parsed is Some && parsed->0.get_bool("stream"@) == Some(true)
}

/// The body with the usage report asked for.
pub open spec fn with_usage(v: JsonV) -> JsonV {
    v.with("stream_options"@, empty_object().with("include_usage"@, JsonV::Bool(true)))
}

/// Whether a body is an object that says nothing of `stream_options`.
pub open spec fn takes_usage(parsed: Option<JsonV>) -> bool {
    parsed is Some && parsed->0 is Object && parsed->0.get("stream_options"@) is None
}

/// The lane a body sticks to; without lanes there is none.
pub open spec fn lane_hint(body: JsonV, lanes: usize) -> Option<nat> {
    if lanes > 0 && body.get_array("messages"@) is Some {
        Some(DefaultHasher::spec_finish(conversation_writes(body)) as nat % lanes as nat)
    } else {
        None
    }
}

/// The view of a lane hint.
pub open spec fn hint_view(o: Option<usize>) -> Option<nat> {
    match o {
        Some(n) => Some(n as nat),
        None => None,
    }
}

/// How a call under `/v1` goes on.
#[derive(Debug)]
pub enum Serve {
    /// Answer the model-catalog probe from cache.
    Models,
    /// Stream; `fallback` keeps the untouched body for a one-shot retry if
    /// the model rejects the injected field.
    Stream { body: Bytes, fallback: Option<Bytes> },
    /// Answer in one piece.
    Buffered { body: Bytes },
}

/// The view of a [`Serve`].
#[verifier::ext_equal]
pub enum ServeV {
    Models,
    Stream { body: Seq<u8>, fallback: Option<Seq<u8>> },
    Buffered { body: Seq<u8> },
}

/// The view of an optional buffer.
pub open spec fn opt_content(o: Option<Bytes>) -> Option<Seq<u8>> {
    match o {
        Some(b) => Some(content(b)),
        None => None,
    }
}

impl View for Serve {
    type V = ServeV;

    open spec fn view(&self) -> ServeV {
        match *self {
            Serve::Models => ServeV::Models,
            Serve::Stream { body, fallback } => ServeV::Stream {
                body: content(body),
                fallback: opt_content(fallback),
            },
            Serve::Buffered { body } => ServeV::Buffered { body: content(body) },
        }
    }
}

/// How a call under `/v1` is served.
#[derive(Debug)]
pub struct ChatPlan {
    pub model: String,
    pub path: String,
    pub serve: Serve,
    /// What the request asked for; only of generation endpoints.
    pub shape: Option<RequestShape>,
    /// The lane the conversation sticks to.
    pub prefer: Option<usize>,
}

/// The model label of a request.
pub open spec fn model_label(labels: Set<Seq<char>>, raw: Seq<char>) -> Seq<char> {
    bounded(labels, label_of(raw), MODEL_LABEL_CAP as nat)
}

/// Whether a path generates.
pub open spec fn generates(path: Seq<char>) -> bool {
    path_label(path) == "/v1/chat/completions"@ || path_label(path) == "/v1/completions"@
}

/// How a call goes on: the catalog probe is answered from cache; a stream
/// gets the usage report asked for, unless the proxy passes bodies through
/// untouched, the path or the body does not take it, or the model is known
/// to reject it.
pub open spec fn serve_of(
    get: bool,
    path: Seq<char>,
    body: Seq<u8>,
    parsed: Option<JsonV>,
    rejects_usage: bool,
    strict_passthrough: bool,
) -> ServeV {
    if get && path == "/v1/models"@ {
        ServeV::Models
    } else if !asks_stream(parsed) {
        ServeV::Buffered { body }
    } else if !strict_passthrough && path == "/v1/chat/completions"@ && takes_usage(parsed)
        && !rejects_usage {
        ServeV::Stream { body: json_body(with_usage(parsed->0)), fallback: Some(body) }
    } else {
        ServeV::Stream { body, fallback: None }
    }
}

/// Whether `plan` is how a call is served.
pub open spec fn is_chat_plan(
    plan: ChatPlan,
    get: bool,
    path: Seq<char>,
    body: Seq<u8>,
    parsed: Option<JsonV>,
    labels: Set<Seq<char>>,
    no_inject: Set<Seq<char>>,
    strict_passthrough: bool,
    lanes: usize,
) -> bool {
    let label = model_label(labels, named_model(parsed));
    let models = get && path == "/v1/models"@;
    &&& plan.model@ == label
    &&& plan.path@ == path_label(path)
    &&& plan.serve@ == serve_of(
        get,
        path,
        body,
        parsed,
        no_inject.contains(label),
        strict_passthrough,
    )
    &&& plan.shape is Some <==> !models && generates(path)
    &&& plan.shape is Some ==> is_shape_of(plan.shape->0, parsed, asks_stream(parsed))
    &&& hint_view(plan.prefer) == if models || parsed is None {
        None
    } else {
        lane_hint(parsed->0, lanes)
    }
}

fn model_of(parsed: Option<&Json>) -> (r: String)
    ensures
        r@ == named_model(opt_json(parsed)),
{
    match parsed {
        Some(v) => match v.get_str("model") {
            Some(m) => m.to_owned(),
            None => "none".to_owned(),
        },
        None => "none".to_owned(),
    }
}

fn stream_asked(parsed: Option<&Json>) -> (r: bool)
    ensures
        r == asks_stream(opt_json(parsed)),
{
    match parsed {
        Some(v) => match v.get_bool("stream") {
            Some(b) => b,
            None => false,
        },
        None => false,
    }
}

fn usage_asked(v: Json) -> (r: Json)
    ensures
        r@ == with_usage(v@),
{
    v.with("stream_options", Json::object().with("include_usage", Json::Bool(true)))
}

fn hint(body: &Json, lanes: usize) -> (r: Option<usize>)
    ensures
        hint_view(r) == lane_hint(body@, lanes),
{
    if lanes > 0 {
        affinity(body, lanes)
    } else {
        None
    }
}

/// Plan a call under `/v1` from its raw body.
pub fn plan_chat(
    get: bool,
    path: &str,
    body: Bytes,
    labels: &mut LabelSet,
    no_inject: &LabelSet,
    strict_passthrough: bool,
    lanes: usize,
) -> (r: ChatPlan)
    ensures
        is_chat_plan(
            r,
            get,
            path@,
            content(body),
            json_of_bytes(content(body)),
            old(labels)@,
            no_inject@,
            strict_passthrough,
            lanes,
        ),
        final(labels)@ == seen_after(
            old(labels)@,
            label_of(named_model(json_of_bytes(content(body)))),
            MODEL_LABEL_CAP as nat,
        ),
{
    let parsed = parse_bytes(slice_of(&body));
    plan_chat_parsed(get, path, body, parsed, labels, no_inject, strict_passthrough, lanes)
}

/// Plan a call under `/v1`, given what its body parsed to.
pub fn plan_chat_parsed(
    get: bool,
    path: &str,
    body: Bytes,
    parsed: Option<Json>,
    labels: &mut LabelSet,
    no_inject: &LabelSet,
    strict_passthrough: bool,
    lanes: usize,
) -> (r: ChatPlan)
    ensures
        is_chat_plan(
            r,
            get,
            path@,
            content(body),
            opt_owned(parsed),
            old(labels)@,
            no_inject@,
            strict_passthrough,
            lanes,
        ),
        final(labels)@ == seen_after(
            old(labels)@,
            label_of(named_model(opt_owned(parsed))),
            MODEL_LABEL_CAP as nat,
        ),
{
    let model = label_model(labels, model_of(parsed.as_ref()).as_str());
    let path_text = label_path(path);
    if get && same(path, "/v1/models") {
        return ChatPlan {
            model,
            path: path_text,
            serve: Serve::Models,
            shape: None,
            prefer: None,
        };
    }
    let wants_stream = stream_asked(parsed.as_ref());
    let prefer = match &parsed {
        Some(v) => hint(v, lanes),
        None => None,
    };
    // Fingerprint what the harness asked for (generation endpoints only).
    let generation = same(path_text.as_str(), "/v1/chat/completions") || same(
        path_text.as_str(),
        "/v1/completions",
    );
    let shape = if generation {
        Some(request_shape(parsed.as_ref(), wants_stream))
    } else {
        None
    };
    let serve = if !wants_stream {
        Serve::Buffered { body }
    } else {
        let rejected = no_inject.contains(model.as_str());
        let open = !strict_passthrough && same(path, "/v1/chat/completions") && !rejected;
        match parsed {
            Some(v) => {
                let takes = v.is_object() && v.get("stream_options").is_none();
                if open && takes {
                    Serve::Stream { body: json_bytes(&usage_asked(v)), fallback: Some(body) }
                } else {
                    Serve::Stream { body, fallback: None }
                }
            },
            None => Serve::Stream { body, fallback: None },
        }
    };
    ChatPlan { model, path: path_text, serve, shape, prefer }
}

/// How a Messages request goes on.
#[derive(Debug)]
pub enum MessagesServe {
    /// Stream, translated with this metadata.
    Stream { body: Bytes, fallback: Option<Bytes>, meta: StreamMeta },
    /// Run the in-gateway search loop.
    Search,
    /// Answer in one piece.
    Buffered { body: Bytes },
}

/// How a Messages request is served.
#[derive(Debug)]
pub struct MessagesPlan {
    /// The model as the client names it.
    pub request_model: String,
    pub payload: ChatPayload,
    pub model: String,
    pub serve: MessagesServe,
    pub shape: RequestShape,
    pub prefer: Option<usize>,
}

/// A Messages request that is turned away.
#[derive(Debug)]
pub struct MessagesRefusal {
    pub reply: Reply,
    /// The refusal counts as a rejected server tool.
    pub server_rejected: bool,
}

/// The envelope of a bridge error.
pub open spec fn bridge_error_json(e: BridgeErrorV) -> JsonV {
    empty_object().with("type"@, JsonV::Str("error"@)).with(
        "error"@,
        empty_object().with("type"@, JsonV::Str("invalid_request_error"@)).with(
            "code"@,
            JsonV::Str(e.code),
        ).with("message"@, JsonV::Str(e.message)),
    )
}

/// Whether `plan` is how a Messages request is served.
pub open spec fn is_messages_plan(
    plan: MessagesPlan,
    anthropic: JsonV,
    payload: ChatPayloadV,
    labels: Set<Seq<char>>,
    no_inject: Set<Seq<char>>,
    strict_passthrough: bool,
    lanes: usize,
) -> bool {
    let chat = payload.json;
    let label = model_label(labels, named_model(Some(anthropic)));
    let stream = asks_stream(Some(chat));
    &&& plan.request_model@ == named_model(Some(anthropic))
    &&& plan.payload@ == payload
    &&& plan.model@ == label
    &&& is_shape_of(plan.shape, Some(chat), stream)
    &&& hint_view(plan.prefer) == lane_hint(chat, lanes)
    &&& match plan.serve {
        MessagesServe::Stream { body, fallback, meta } => {
            &&& stream
            &&& meta@.model == named_model(Some(anthropic))
            &&& meta@.client_tool_names == client_names(plan.payload.tool_meta@)
            &&& if !strict_passthrough && !no_inject.contains(label) {
                content(body) == json_body(with_usage(chat)) && opt_content(fallback) == Some(
                    json_body(chat),
                )
            } else {
                content(body) == json_body(chat) && fallback is None
            }
        },
        MessagesServe::Search => !stream && payload.web_search is Some,
        MessagesServe::Buffered { body } => !stream && payload.web_search is None && content(body)
            == json_body(chat),
    }
}

/// Whether `r` is the outcome for a Messages request.
pub open spec fn is_messages_outcome(
    r: Result<MessagesPlan, MessagesRefusal>,
    parsed: Option<JsonV>,
    beta: Seq<char>,
    labels: Set<Seq<char>>,
    no_inject: Set<Seq<char>>,
    strict_passthrough: bool,
    lanes: usize,
) -> bool {
    if !(parsed is Some && parsed->0 is Object) {
        &&& r is Err
        &&& r->Err_0.reply@ == plain_reply(
            400,
            proxy_error("invalid_json"@, "request body must be a JSON object"@),
        )
        &&& !r->Err_0.server_rejected
    } else {
        match payload_of(parsed->0, beta) {
            Err(e) => {
                &&& r is Err
                &&& r->Err_0.reply@ == plain_reply(400, bridge_error_json(e))
                &&& r->Err_0.server_rejected == (e.code == "server_tools_unsupported"@)
            },
            Ok(payload) => {
                &&& r is Ok
                &&& is_messages_plan(
                    r->Ok_0,
                    parsed->0,
                    payload,
                    labels,
                    no_inject,
                    strict_passthrough,
                    lanes,
                )
            },
        }
    }
}

/// The labels after a Messages request: only one that is served is
/// measured by its model.
pub open spec fn messages_labels(
    parsed: Option<JsonV>,
    beta: Seq<char>,
    labels: Set<Seq<char>>,
) -> Set<Seq<char>> {
    if parsed is Some && parsed->0 is Object && payload_of(parsed->0, beta) is Ok {
        seen_after(labels, label_of(named_model(parsed)), MODEL_LABEL_CAP as nat)
    } else {
        labels
    }
}

/// The envelope of a bridge error.
fn bridge_error_reply(e: &BridgeError) -> (r: Reply)
    ensures
        r@ == plain_reply(400, bridge_error_json(e@)),
{
    json_response(
        400,
        &Json::object().with("type", Json::text("error")).with(
            "error",
            Json::object().with("type", Json::text("invalid_request_error")).with(
                "code",
                Json::text(e.code),
            ).with("message", Json::text(e.message.as_str())),
        ),
    )
}

/// Plan a Messages request from its raw body. `beta` is the raw
/// `anthropic-beta` header value, empty where there is none.
pub fn plan_messages(
    body: &Bytes,
    beta: &str,
    labels: &mut LabelSet,
    no_inject: &LabelSet,
    strict_passthrough: bool,
    lanes: usize,
) -> (r: Result<MessagesPlan, MessagesRefusal>)
    ensures
        is_messages_outcome(
            r,
            json_of_bytes(content(*body)),
            beta@,
            old(labels)@,
            no_inject@,
            strict_passthrough,
            lanes,
        ),
        final(labels)@ == messages_labels(json_of_bytes(content(*body)), beta@, old(labels)@),
{
    let parsed = parse_bytes(slice_of(body));
    plan_messages_parsed(parsed, beta, labels, no_inject, strict_passthrough, lanes)
}

/// Plan a Messages request, given what its body parsed to.
pub fn plan_messages_parsed(
    parsed: Option<Json>,
    beta: &str,
    labels: &mut LabelSet,
    no_inject: &LabelSet,
    strict_passthrough: bool,
    lanes: usize,
) -> (r: Result<MessagesPlan, MessagesRefusal>)
    ensures
        is_messages_outcome(
            r,
            opt_owned(parsed),
            beta@,
            old(labels)@,
            no_inject@,
            strict_passthrough,
            lanes,
        ),
        final(labels)@ == messages_labels(opt_owned(parsed), beta@, old(labels)@),
{
    let object = match parsed {
        Some(v) => if v.is_object() {
            Some(v)
        } else {
            None
        },
        None => None,
    };
    let anthropic = match object {
        Some(v) => v,
        None => {
            return Err(
                MessagesRefusal {
                    reply: json_response(
                        400,
                        &proxy_error_json("invalid_json", "request body must be a JSON object"),
                    ),
                    server_rejected: false,
                },
            );
        },
    };
    let payload = match to_chat_payload(&anthropic, beta) {
        Ok(payload) => payload,
        Err(e) => {
            // A rejected server tool is the one tool offer the client asked
            // for that the pipeline will never see: it counts as
            // `server_rejected` so the frozen vocabulary stays complete.
            let server_rejected = same(e.code, "server_tools_unsupported");
            return Err(MessagesRefusal { reply: bridge_error_reply(&e), server_rejected });
        },
    };
    let request_model = model_of(Some(&anthropic));
    let model = label_model(labels, request_model.as_str());
    let wants_stream = stream_asked(Some(&payload.json));
    let prefer = hint(&payload.json, lanes);
    let shape = request_shape(Some(&payload.json), wants_stream);
    let serve = if wants_stream {
        let meta = messages_stream_meta(&payload, request_model.as_str());
        let body = json_bytes(&payload.json);
        if !strict_passthrough && !no_inject.contains(model.as_str()) {
            let asked = json_bytes(&usage_asked(payload.json.clone()));
            MessagesServe::Stream { body: asked, fallback: Some(body), meta }
        } else {
            MessagesServe::Stream { body, fallback: None, meta }
        }
    } else if payload.web_search.is_some() {
        MessagesServe::Search
    } else {
        MessagesServe::Buffered { body: json_bytes(&payload.json) }
    };
    Ok(MessagesPlan { request_model, payload, model, serve, shape, prefer })
}

}
