//! What is sent upstream for a request and what its client is answered: the
//! client's own bytes, or its own request and no more than one member added;
//! and upstream's own words.
use crate::bridge::request::{ChatPayloadV, ToolMeta, ToolMetaV};
use crate::bridge::response::message_of_completion;
use crate::bridge::tools::{family_of, ToolFamily};
use crate::buffers::content;
use crate::codec::json_text;
use crate::json::{number_view, JsonV};
use crate::proxy::finish::{error_detail, messages_reply};
use crate::proxy::labels::{
    bounded, client_names, family_label, label_of, path_label, safe_chars, seen_after,
};
use crate::proxy::plan::{
    bridge_error_json, is_chat_plan, is_messages_outcome, is_messages_plan, messages_labels, serve_of, ChatPlan,
    MessagesPlan, MessagesRefusal, MessagesServe, ServeV,
};
use crate::proxy::replies::{
    bad_gateway_reply, deadline_exceeded_reply, gateway_timeout_reply, invalid_deadline_reply,
    json_body, overloaded_reply, proxy_error, sse_error_bytes, unauthorized_reply, ReplyV,
};
use crate::proxy::affinity::conversation_writes;
use crate::proxy::shape::{choice_mode, is_shape_of, RequestShape};
use std::collections::hash_map::DefaultHasher;
use vstd::prelude::*;
use vstd::std_specs::hash::DefaultHasherAdditionalSpecFns;
use vstd::utf8::encode_utf8;

verus! {

/// The bytes that a JSON value is sent as.
pub open spec fn printed_as(v: JsonV) -> Seq<u8> {
    encode_utf8(json_text(v))
}

/// Whether a request is the given one with usage asked for, and no other
/// member changed.
pub open spec fn asks_usage(sent: JsonV, request: JsonV) -> bool {
    &&& sent.get("stream_options"@) == Some(
        JsonV::Object(map!["include_usage"@ => JsonV::Bool(true)]),
    )
    &&& forall|key: Seq<char>| key != "stream_options"@ ==> #[trigger] sent.get(key)
        == request.get(key)
}

proof fn lemma_with_usage(v: JsonV)
    requires
        v is Object,
    ensures
        asks_usage(crate::proxy::plan::with_usage(v), v),
{
    let options = crate::proxy::plan::with_usage(v).get("stream_options"@)->0;
    assert(options->Object_0 =~= map!["include_usage"@ => JsonV::Bool(true)]);
}

/// What is served depends on the request alone: the catalog for a read of
/// the models, a stream for a request that asks for one, one piece for any
/// other. The body goes upstream byte for byte, but for one case: a streamed
/// chat that does not set its stream's options itself asks for usage too,
/// and its own bytes are kept to fall back on. A strict gateway never does
/// that, nor is it done for a model that rejects it.
pub proof fn law_bodies_go_upstream_as_they_came(
    get: bool,
    path: Seq<char>,
    body: Seq<u8>,
    parsed: Option<JsonV>,
    rejects_usage: bool,
    strict: bool,
)
    ensures
        ({
            let streams = parsed is Some && parsed->0.get("stream"@) == Some(JsonV::Bool(true));
            let models = get && path == "/v1/models"@;
            match serve_of(get, path, body, parsed, rejects_usage, strict) {
                ServeV::Models => models,
                ServeV::Buffered { body: sent } => !models && !streams && sent == body,
                ServeV::Stream { body: sent, fallback } => {
                    &&& !models && streams
                    &&& match fallback {
                        None => sent == body,
                        Some(own) => {
                            &&& own == body
                            &&& !strict && !rejects_usage && path == "/v1/chat/completions"@
                            &&& parsed->0.get("stream_options"@) is None
                            &&& exists|v: JsonV|
                                sent == #[trigger] printed_as(v) && asks_usage(v, parsed->0)
                        },
                    }
                },
            }
        }),
        !strict && !rejects_usage && path == "/v1/chat/completions"@ && parsed is Some
            && parsed->0.get("stream"@) == Some(JsonV::Bool(true)) && parsed->0.get(
            "stream_options"@,
        ) is None ==> (serve_of(get, path, body, parsed, rejects_usage, strict)
            matches ServeV::Stream { fallback, .. } && fallback is Some),
{
    reveal_strlit("/v1/models");
    reveal_strlit("/v1/chat/completions");
    assert("/v1/models"@.len() == 10 && "/v1/chat/completions"@.len() == 20);
    match serve_of(get, path, body, parsed, rejects_usage, strict) {
        ServeV::Stream { body: sent, fallback: Some(own) } => {
            let v = crate::proxy::plan::with_usage(parsed->0);
            lemma_with_usage(parsed->0);
            assert(sent == printed_as(v));
        },
        _ => {},
    }
}

/// A messages request that was converted is sent as its chat payload: as it
/// stands, or with usage asked for too and the payload to fall back on. It
/// streams exactly when the payload asks for it, and otherwise runs the
/// search loop exactly when it offers the search; a stream names the model
/// that the client named.
pub proof fn law_messages_are_sent_as_their_payload(
    plan: MessagesPlan,
    anthropic: JsonV,
    payload: ChatPayloadV,
    labels: Set<Seq<char>>,
    no_inject: Set<Seq<char>>,
    strict: bool,
    lanes: usize,
    model: Seq<char>,
)
    requires
        is_messages_plan(plan, anthropic, payload, labels, no_inject, strict, lanes),
        payload.json is Object,
        anthropic.get_str("model"@) == Some(model),
    ensures
        ({
            let streams = payload.json.get("stream"@) == Some(JsonV::Bool(true));
            &&& plan.request_model@ == model
            &&& plan.payload@ == payload
            &&& plan.model@ == bounded(labels, label_of(model), 256)
            &&& plan.prefer is Some <==> lanes > 0 && payload.json.get_array("messages"@) is Some
            &&& plan.prefer is Some ==> plan.prefer->0 == DefaultHasher::spec_finish(
                conversation_writes(payload.json),
            ) as nat % lanes as nat
            &&& match plan.serve {
                MessagesServe::Stream { body, fallback, meta } => {
                    &&& streams
                    &&& meta@.model == model
                    &&& match fallback {
                        None => content(body) == printed_as(payload.json),
                        Some(own) => !strict && content(own) == printed_as(payload.json)
                            && exists|v: JsonV|
                            content(body) == #[trigger] printed_as(v) && asks_usage(
                                v,
                                payload.json,
                            ),
                    }
                },
                MessagesServe::Search => !streams && payload.web_search is Some,
                MessagesServe::Buffered { body } => !streams && payload.web_search is None
                    && content(body) == printed_as(payload.json),
            }
        }),
{
    match plan.serve {
        MessagesServe::Stream { body, fallback, meta } => {
            let v = crate::proxy::plan::with_usage(payload.json);
            lemma_with_usage(payload.json);
            assert(json_body(v) == printed_as(v));
        },
        _ => {},
    }
}

/// The members of errors, told apart.
proof fn lemma_error_keys()
    ensures
        "type"@ != "error"@,
        "type"@ != "message"@,
        "type"@ != "code"@,
        "message"@ != "code"@,
{
    reveal_strlit("type");
    reveal_strlit("error");
    reveal_strlit("message");
    reveal_strlit("code");
    assert("type"@.len() == 4 && "error"@.len() == 5 && "message"@.len() == 7);
    assert("code"@.len() == 4 && "type"@[0] == 't' && "code"@[0] == 'c');
}

/// What upstream says of its failure: the message of its error, or its
/// message, or its detail, and a phrase of the gateway's where that is no
/// text.
pub open spec fn upstream_words(parsed: Option<JsonV>) -> Option<Seq<char>> {
    match parsed {
        None => None,
        Some(v) => if v.get("error"@) is Some && v.get("error"@)->0.get("message"@) is Some {
            v.get("error"@)->0.get_str("message"@)
        } else if v.get("message"@) is Some {
            v.get_str("message"@)
        } else {
            v.get_str("detail"@)
        },
    }
}

/// A client of the messages endpoint is answered under upstream's status: a
/// completion as a message, a success that is no completion byte for byte,
/// and a failure as an error of the published kinds, in upstream's words
/// where it has any. A success without a body is a bad gateway.
pub proof fn law_messages_clients_are_answered(
    status: u16,
    body: Option<Seq<u8>>,
    parsed: Option<JsonV>,
    model: Seq<char>,
    tools: Seq<ToolMetaV>,
)
    ensures
        ({
            let r = messages_reply(status, body, parsed, model, tools);
            let good = 200 <= status < 300;
            &&& good && body is None ==> r.status == 502
            &&& good && body is Some ==> r.status == status && r.header is None
            &&& good && body is Some && parsed is Some ==> r.body == printed_as(
                message_of_completion(parsed->0, model, tools, None),
            )
            &&& good && body is Some && parsed is None ==> r.body == body->0
            &&& !good ==> r.status == status && r.header is None && exists|e: JsonV|
                r.body == #[trigger] printed_as(e) && e.get_str("type"@) == Some("error"@) && e.get(
                    "error"@,
                ) is Some && e.get("error"@)->0.get_str("message"@) == match upstream_words(
                    parsed,
                ) {
                    Some(words) => Some(words),
                    None => Some("upstream request failed"@),
                } && e.get("error"@)->0.get_str("type"@) == Some(
                    if status == 400 {
                        "invalid_request_error"@
                    } else if status == 401 || status == 403 {
                        "authentication_error"@
                    } else if status == 404 {
                        "not_found_error"@
                    } else if status == 429 {
                        "rate_limit_error"@
                    } else if status == 503 {
                        "overloaded_error"@
                    } else {
                        "api_error"@
                    },
                )
        }),
{
    lemma_error_keys();
    if !(200 <= status < 300) {
        let e = crate::proxy::finish::error_envelope(
            crate::proxy::finish::error_kind(status),
            error_detail(parsed),
        );
        assert(messages_reply(status, body, parsed, model, tools).body == printed_as(e));
    }
}

/// Whether a reply is an error of the gateway's own: its status, and a body
/// that names the code and the message.
pub open spec fn is_proxy_error(
    r: ReplyV,
    status: u16,
    code: Seq<char>,
    message: Seq<char>,
) -> bool {
    &&& r.status == status
    &&& r.body == printed_as(proxy_error(code, message))
}

/// The gateway's own errors name themselves: the body holds an error of the
/// gateway's type, with the code and the message, in one piece or in a
/// stream, which it ends.
pub proof fn law_own_errors_name_themselves(code: Seq<char>, message: Seq<char>)
    ensures
        proxy_error(code, message).get("error"@) is Some,
        proxy_error(code, message).get("error"@)->0.get_str("type"@) == Some("proxy_error"@),
        proxy_error(code, message).get("error"@)->0.get_str("code"@) == Some(code),
        proxy_error(code, message).get("error"@)->0.get_str("message"@) == Some(message),
        sse_error_bytes(code, message) == encode_utf8(
            "data: "@ + json_text(proxy_error(code, message)) + "\n\ndata: [DONE]\n\n"@,
        ),
{
    lemma_error_keys();
}

/// Each refusal of the gateway's own has its status and its code, and tells
/// the client how to go on where there is a way: which scheme to use, or
/// when to try again.
pub proof fn law_own_refusals(max_inflight: usize, max_wait_secs: u64, pool_len: usize)
    ensures
        unauthorized_reply().header == Some(("www-authenticate"@, "Bearer"@)),
        exists|m: Seq<char>| #[trigger] is_proxy_error(unauthorized_reply(), 401, "unauthorized"@, m),
        exists|m: Seq<char>| #[trigger]
            is_proxy_error(invalid_deadline_reply(), 400, "invalid_deadline"@, m),
        overloaded_reply(max_inflight).header == Some(("retry-after"@, "5"@)),
        exists|m: Seq<char>| #[trigger]
            is_proxy_error(overloaded_reply(max_inflight), 503, "overloaded"@, m),
        exists|m: Seq<char>| #[trigger] is_proxy_error(bad_gateway_reply(), 502, "bad_gateway"@, m),
        exists|m: Seq<char>| #[trigger]
            is_proxy_error(deadline_exceeded_reply(), 504, "deadline_exceeded"@, m),
        exists|m: Seq<char>| #[trigger]
            is_proxy_error(
                gateway_timeout_reply(max_wait_secs, pool_len),
                504,
                "rate_limited"@,
                m,
            ),
{
    assert(is_proxy_error(
        unauthorized_reply(),
        401,
        "unauthorized"@,
        "missing or invalid proxy API key (Authorization: Bearer ...)"@,
    ));
    assert(is_proxy_error(
        invalid_deadline_reply(),
        400,
        "invalid_deadline"@,
        "X-Nim-Proxy-Deadline-Ms must be one unsigned decimal millisecond value"@,
    ));
    assert(is_proxy_error(
        overloaded_reply(max_inflight),
        503,
        "overloaded"@,
        "proxy at capacity ("@ + crate::text::decimal(max_inflight as nat)
            + " concurrent requests); retry shortly"@,
    ));
    assert(is_proxy_error(
        bad_gateway_reply(),
        502,
        "bad_gateway"@,
        "upstream response failed or timed out"@,
    ));
    assert(is_proxy_error(
        deadline_exceeded_reply(),
        504,
        "deadline_exceeded"@,
        "proxy request deadline exceeded"@,
    ));
    assert(is_proxy_error(
        gateway_timeout_reply(max_wait_secs, pool_len),
        504,
        "rate_limited"@,
        "no upstream slot became available within "@ + crate::text::decimal(max_wait_secs as nat)
            + "s (all "@ + crate::text::decimal(pool_len as nat) + " keys saturated)"@,
    ));
}

/// A request that the bridge refuses is told why, in an error of the
/// request's kind that names the code, and counts as a server tool turned
/// away exactly when that is the reason. A body that is no object is told
/// so.
pub proof fn law_refused_messages_are_told_why(
    r: Result<MessagesPlan, MessagesRefusal>,
    parsed: Option<JsonV>,
    beta: Seq<char>,
    labels: Set<Seq<char>>,
    no_inject: Set<Seq<char>>,
    strict: bool,
    lanes: usize,
)
    requires
        is_messages_outcome(r, parsed, beta, labels, no_inject, strict, lanes),
    ensures
        r is Ok <==> parsed is Some && parsed->0 is Object
            && crate::bridge::request::payload_of(parsed->0, beta) is Ok,
        r is Err ==> r->Err_0.reply@.status == 400,
        r is Err && !(parsed is Some && parsed->0 is Object) ==> is_proxy_error(
            r->Err_0.reply@,
            400,
            "invalid_json"@,
            "request body must be a JSON object"@,
        ) && !r->Err_0.server_rejected,
        r is Err && parsed is Some && parsed->0 is Object ==> ({
            let e = crate::bridge::request::payload_of(parsed->0, beta)->Err_0;
            &&& r->Err_0.reply@.body == printed_as(bridge_error_json(e))
            &&& bridge_error_json(e).get_str("type"@) == Some("error"@)
            &&& bridge_error_json(e).get("error"@) is Some
            &&& bridge_error_json(e).get("error"@)->0.get_str("type"@) == Some(
                "invalid_request_error"@,
            )
            &&& bridge_error_json(e).get("error"@)->0.get_str("code"@) == Some(e.code)
            &&& bridge_error_json(e).get("error"@)->0.get_str("message"@) == Some(e.message)
            &&& r->Err_0.server_rejected <==> e.code == "server_tools_unsupported"@
        }),
{
    lemma_error_keys();
}

/// The characters of a text that may stand in a label, in order.
pub open spec fn kept_chars(s: Seq<char>) -> Seq<char>
    decreases s.len(),
{
    if s.len() == 0 {
        Seq::empty()
    } else {
        let c = s.last();
        let kept = 'a' <= c <= 'z' || 'A' <= c <= 'Z' || '0' <= c <= '9' || c == '.' || c == '_'
            || c == '-' || c == '/' || c == ':';
        if kept {
            kept_chars(s.drop_last()).push(c)
        } else {
            kept_chars(s.drop_last())
        }
    }
}

proof fn lemma_kept_chars(s: Seq<char>)
    ensures
        kept_chars(s) == safe_chars(s),
    decreases s.len(),
{
    if s.len() > 0 {
        lemma_kept_chars(s.drop_last());
    }
}

/// A label keeps the safe characters of a name, in order, and as many as
/// fit; a name without any has the label of none. A label that is known, or
/// for which there is room, stands; any other is lumped together with the
/// rest.
pub proof fn law_labels_keep_the_name(s: Seq<char>, seen: Set<Seq<char>>, cap: nat)
    ensures
        label_of(s) == if kept_chars(s).len() == 0 {
            "none"@
        } else if kept_chars(s).len() > 64 {
            kept_chars(s).take(64)
        } else {
            kept_chars(s)
        },
        seen.contains(s) ==> bounded(seen, s, cap) == s && seen_after(seen, s, cap) == seen,
        !seen.contains(s) && seen.len() < cap ==> bounded(seen, s, cap) == s && seen_after(
            seen,
            s,
            cap,
        ) == seen.insert(s),
        !seen.contains(s) && seen.len() >= cap ==> bounded(seen, s, cap) == "other"@
            && seen_after(seen, s, cap) == seen,
{
    lemma_kept_chars(s);
}

/// A path is its own label where it is one of the gateway's, and lumped
/// together with the rest where it is not.
pub proof fn law_path_labels(path: Seq<char>)
    ensures
        path_label(path) == path || path_label(path) == "other"@,
        path == "/v1/chat/completions"@ || path == "/v1/completions"@ || path == "/v1/embeddings"@
            || path == "/v1/models"@ || path == "/v1/rankings"@ ==> path_label(path) == path,
        path != "/v1/chat/completions"@ && path != "/v1/completions"@ && path != "/v1/embeddings"@
            && path != "/v1/models"@ && path != "/v1/rankings"@ ==> path_label(path) == "other"@,
{
}

/// The tools that the caller runs are named to the stream, all of them and
/// in order, and no other.
pub proof fn law_callers_tools_are_named(tools: Seq<ToolMeta>, name: Seq<char>)
    ensures
        client_names(tools).contains(name) <==> exists|k: int|
            0 <= k < tools.len() && (#[trigger] tools[k]).name@ == name && tools[k].family
                != ToolFamily::WebSearch && tools[k].family != ToolFamily::WebFetch,
    decreases tools.len(),
{
    if tools.len() > 0 {
        let head = tools.drop_last();
        law_callers_tools_are_named(head, name);
        let t = tools.last();
        let own = t.family != ToolFamily::WebSearch && t.family != ToolFamily::WebFetch;
        let n = tools.len() - 1;
        let all = client_names(tools);
        let before = client_names(head);
        if before.contains(name) {
            let i = before.index_of(name);
            assert(all[i] == name);
            let k = choose|k: int|
                0 <= k < head.len() && (#[trigger] head[k]).name@ == name && head[k].family
                    != ToolFamily::WebSearch && head[k].family != ToolFamily::WebFetch;
            assert(tools[k].name@ == name);
        }
        if own && t.name@ == name {
            assert(all[all.len() - 1] == name);
            assert(tools[n].name@ == name);
        }
        if all.contains(name) && !before.contains(name) {
            let i = all.index_of(name);
            if i < before.len() {
                assert(before[i] == name);
            }
            assert(own && t.name@ == name);
        }
        if exists|k: int|
            0 <= k < tools.len() && (#[trigger] tools[k]).name@ == name && tools[k].family
                != ToolFamily::WebSearch && tools[k].family != ToolFamily::WebFetch {
            let k = choose|k: int|
                0 <= k < tools.len() && (#[trigger] tools[k]).name@ == name && tools[k].family
                    != ToolFamily::WebSearch && tools[k].family != ToolFamily::WebFetch;
            if k < n {
                assert(head[k] == tools[k]);
                assert(before.contains(name));
            }
        }
    }
}

/// A plan for a chat keeps the request's model and path as labels, the shape
/// of what it asks for where it generates, and its conversation's lane.
pub proof fn law_chat_plans_serve_the_request(
    plan: ChatPlan,
    get: bool,
    path: Seq<char>,
    body: Seq<u8>,
    parsed: Option<JsonV>,
    labels: Set<Seq<char>>,
    no_inject: Set<Seq<char>>,
    strict: bool,
    lanes: usize,
)
    requires
        is_chat_plan(plan, get, path, body, parsed, labels, no_inject, strict, lanes),
    ensures
        plan.serve@ is Models <==> get && path == "/v1/models"@,
        strict && !(get && path == "/v1/models"@) ==> match plan.serve@ {
            ServeV::Stream { body: sent, fallback } => sent == body && fallback is None,
            ServeV::Buffered { body: sent } => sent == body,
            ServeV::Models => false,
        },
        match plan.serve@ {
            ServeV::Stream { body: sent, fallback } => fallback is None ==> sent == body,
            ServeV::Buffered { body: sent } => sent == body,
            ServeV::Models => true,
        },
        parsed is Some && parsed->0.get_str("model"@) is Some ==> plan.model@ == bounded(
            labels,
            label_of(parsed->0.get_str("model"@)->0),
            256,
        ),
        plan.shape is Some ==> plan.shape->0.stream == (parsed is Some && parsed->0.get("stream"@)
            == Some(JsonV::Bool(true))),
        plan.prefer is Some <==> lanes > 0 && !(get && path == "/v1/models"@) && parsed is Some
            && parsed->0.get_array("messages"@) is Some,
        plan.prefer is Some ==> plan.prefer->0 == DefaultHasher::spec_finish(
            conversation_writes(parsed->0),
        ) as nat % lanes as nat,
{
    law_bodies_go_upstream_as_they_came(
        get,
        path,
        body,
        parsed,
        no_inject.contains(plan.model@),
        strict,
    );
}

/// What a request asks for, in figures: how many messages, how many tools
/// under either name and how they are chosen, how long an answer under
/// either name, how warm, and whether it is to be JSON; and nothing of it
/// where it cannot be read.
pub proof fn law_shapes_count_what_is_asked(
    shape: RequestShape,
    parsed: Option<JsonV>,
    stream: bool,
)
    requires
        is_shape_of(shape, parsed, stream),
    ensures
        shape.stream == stream,
        parsed is None ==> shape.messages is None && shape.tools is None && shape.tool_choice
            is None && shape.max_tokens is None && shape.temperature is None && !shape.json_mode,
        parsed matches Some(v) ==> {
            &&& shape.messages is Some <==> v.get_array("messages"@) is Some
            &&& shape.messages is Some ==> shape.messages->0 == v.list("messages"@).len()
            &&& v.get_array("tools"@) is Some ==> shape.tools is Some && shape.tools->0 == v.list(
                "tools"@,
            ).len()
            &&& v.get_array("tools"@) is None && v.get_array("functions"@) is Some ==> shape.tools
                is Some && shape.tools->0 == v.list("functions"@).len()
            &&& v.get_array("tools"@) is None && v.get_array("functions"@) is None ==> shape.tools
                is None
            &&& shape.tools is None <==> shape.tool_choice is None
            &&& v.get_u64("max_tokens"@) is Some ==> shape.max_tokens == v.get_u64("max_tokens"@)
            &&& v.get_u64("max_tokens"@) is None ==> shape.max_tokens == v.get_u64(
                "max_completion_tokens"@,
            )
            &&& shape.json_mode <==> v.get("response_format"@) is Some && (v.get(
                "response_format"@,
            )->0.get_str("type"@) == Some("json_object"@) || v.get("response_format"@)->0.get_str(
                "type"@,
            ) == Some("json_schema"@))
            &&& shape.temperature is Some ==> v.get("temperature"@) == Some(
                number_view(shape.temperature->0),
            )
            &&& shape.temperature is None ==> v.get("temperature"@) is None || !(v.get(
                "temperature"@,
            )->0 is Int || v.get("temperature"@)->0 is Float)
        },
{
}

/// How tools are chosen is told in one word: the word itself where it is one
/// of the known ones, a name where a tool is named, and the default where
/// nothing is said.
pub proof fn law_choices_in_one_word(v: JsonV)
    ensures
        match v.get("tool_choice"@) {
            None => choice_mode(v) == "auto"@,
            Some(JsonV::Object(_)) => choice_mode(v) == "named"@,
            Some(JsonV::Str(s)) => {
                &&& s == "auto"@ || s == "none"@ || s == "required"@ ==> choice_mode(v) == s
                &&& s != "auto"@ && s != "none"@ && s != "required"@ ==> choice_mode(v) == "other"@
            },
            Some(_) => choice_mode(v) == "auto"@,
        },
{
}

/// A refused request leaves the labels alone; one that is taken adds its
/// model's label where there is room.
pub proof fn law_messages_label_their_model(
    parsed: Option<JsonV>,
    beta: Seq<char>,
    labels: Set<Seq<char>>,
    model: Seq<char>,
)
    ensures
        !(parsed is Some && parsed->0 is Object) ==> messages_labels(parsed, beta, labels)
            == labels,
        parsed is Some && parsed->0 is Object && crate::bridge::request::payload_of(
            parsed->0,
            beta,
        ) is Err ==> messages_labels(parsed, beta, labels) == labels,
        parsed is Some && parsed->0 is Object && crate::bridge::request::payload_of(
            parsed->0,
            beta,
        ) is Ok && parsed->0.get_str("model"@) == Some(model) ==> messages_labels(
            parsed,
            beta,
            labels,
        ) == seen_after(labels, label_of(model), 256),
{
}

/// A tool is counted under the word that its type begins with; the fetch is
/// counted with the search, and the caller's own tools under one word.
pub proof fn law_tools_are_counted_by_their_type(family: ToolFamily, version: Seq<char>)
    ensures
        family != ToolFamily::WebFetch && family != ToolFamily::Custom ==> family_of(
            Some(family_label(family) + "_"@ + version),
        ) == family,
        family_label(ToolFamily::WebFetch) == family_label(ToolFamily::WebSearch),
        family_label(ToolFamily::Custom) == "custom"@,
{
    reveal_strlit("_");
    reveal_strlit("bash");
    reveal_strlit("bash_");
    reveal_strlit("text_editor");
    reveal_strlit("text_editor_");
    reveal_strlit("memory");
    reveal_strlit("memory_");
    reveal_strlit("computer");
    reveal_strlit("computer_");
    reveal_strlit("web_search");
    reveal_strlit("web_search_");
    reveal_strlit("web_fetch_");
    reveal_strlit("custom");
    let t = family_label(family) + "_"@ + version;
    assert("bash"@ + "_"@ =~= "bash_"@);
    assert("text_editor"@ + "_"@ =~= "text_editor_"@);
    assert("memory"@ + "_"@ =~= "memory_"@);
    assert("computer"@ + "_"@ =~= "computer_"@);
    assert("web_search"@ + "_"@ =~= "web_search_"@);
    assert((family_label(family) + "_"@).is_prefix_of(t));
    assert(family_label(family).len() > 0);
    assert(t[0] == family_label(family)[0]);
    assert("bash_"@[0] == 'b' && "text_editor_"@[0] == 't' && "memory_"@[0] == 'm');
    assert("computer_"@[0] == 'c' && "web_search_"@[0] == 'w');
}

}
