//! Who is let in, what is sent upstream on their behalf, and what they are
//! told: the rules of the gateway's door, stated of what goes in and out.
use crate::codec::json_text;
use crate::digest::sha256_hex_of;
use crate::json::JsonV;
use crate::numbers::u64_in;
use crate::proxy::admission::{
    admission, client_by_digest, client_of, deadline_in, is_gated, Refusal,
};
use crate::proxy::affinity::{conversation_writes, hashed_messages};
use crate::proxy::catalog::{catalog_verdict, CatalogAnswer};
use crate::proxy::retry::{backoff_of, is_retryable};
use crate::proxy::upstream::upstream_headers;
use crate::text_laws::{law_numbers_are_read, number_read};
use crate::buffers::content;
use vstd::prelude::*;
use vstd::utf8::encode_utf8;

verus! {

/// Whether a text is decimal digits and nothing else.
pub open spec fn digits_only(s: Seq<char>) -> bool {
    s.len() > 0 && forall|i: int| 0 <= i < s.len() ==> '0' <= #[trigger] s[i] <= '9'
}

proof fn lemma_u64(s: Seq<char>)
    requires
        digits_only(s),
    ensures
        number_read(s) >= 0,
        u64_in(s) == if number_read(s) <= u64::MAX {
            Some(number_read(s) as nat)
        } else {
            None
        },
{
    law_numbers_are_read(s, u64::MAX as nat);
}

/// A deadline is one value of decimal digits that a 64-bit number holds, in
/// milliseconds; no header is no deadline, and anything else is refused.
pub proof fn law_deadlines_are_plain_numbers(values: Seq<Option<Seq<char>>>)
    ensures
        values.len() == 0 ==> deadline_in(values) == Ok::<Option<nat>, ()>(None),
        values.len() > 1 ==> deadline_in(values) is Err,
        values.len() == 1 ==> match values[0] {
            None => deadline_in(values) is Err,
            Some(raw) => if digits_only(raw) && number_read(raw) <= u64::MAX {
                deadline_in(values) == Ok::<Option<nat>, ()>(Some(number_read(raw) as nat))
            } else {
                deadline_in(values) is Err
            },
        },
{
    if values.len() == 1 && values[0] is Some && digits_only(values[0]->0) {
        lemma_u64(values[0]->0);
    }
}

/// A request is let in exactly when the gateway is not over its cap, the
/// client is known and the deadline can be read; it then keeps both. The
/// first of these that fails is the one it is told.
pub proof fn law_who_is_let_in(
    inflight: usize,
    max_inflight: usize,
    client: Option<Seq<char>>,
    deadline: Result<Option<nat>, ()>,
)
    ensures
        ({
            let r = admission(inflight, max_inflight, client, deadline);
            &&& r is Ok <==> inflight <= max_inflight && client is Some && deadline is Ok
            &&& r is Ok ==> r->Ok_0 == (client->0, deadline->Ok_0)
            &&& inflight > max_inflight ==> r == Err::<(Seq<char>, Option<nat>), Refusal>(
                Refusal::Overloaded,
            )
            &&& inflight <= max_inflight && client is None ==> r == Err::<
                (Seq<char>, Option<nat>),
                Refusal,
            >(Refusal::Unauthorized)
            &&& inflight <= max_inflight && client is Some && deadline is Err ==> r == Err::<
                (Seq<char>, Option<nat>),
                Refusal,
            >(Refusal::InvalidDeadline)
        }),
{
}

/// Whether the client key at `i` is the last with the given digest.
pub open spec fn is_last_of(clients: Seq<(Seq<char>, Seq<char>)>, digest: Seq<char>, i: int) -> bool {
    &&& 0 <= i < clients.len()
    &&& clients[i].0 == digest
    &&& forall|k: int| i < k < clients.len() ==> (#[trigger] clients[k]).0 != digest
}

proof fn lemma_by_digest(clients: Seq<(Seq<char>, Seq<char>)>, digest: Seq<char>)
    ensures
        match client_by_digest(clients, digest) {
            Some(name) => exists|i: int| #[trigger] is_last_of(clients, digest, i) && clients[i].1
                == name,
            None => forall|k: int| 0 <= k < clients.len() ==> (#[trigger] clients[k]).0 != digest,
        },
    decreases clients.len(),
{
    if clients.len() > 0 {
        let head = clients.drop_last();
        let n = clients.len() - 1;
        lemma_by_digest(head, digest);
        if clients.last().0 == digest {
            assert(is_last_of(clients, digest, n));
        } else {
            assert(clients[n].0 != digest);
            match client_by_digest(head, digest) {
                Some(name) => {
                    let i = choose|i: int| #[trigger] is_last_of(head, digest, i) && head[i].1
                        == name;
                    assert forall|k: int| i < k < clients.len() implies (#[trigger] clients[k]).0
                        != digest by {
                        if k < n {
                            assert(head[k] == clients[k]);
                        }
                    }
                    assert(is_last_of(clients, digest, i));
                },
                None => {
                    assert forall|k: int| 0 <= k < clients.len() implies (#[trigger] clients[k]).0
                        != digest by {
                        if k < n {
                            assert(head[k] == clients[k]);
                        }
                    }
                },
            }
        }
    }
}

/// Without client keys everybody is local. With them, a client is known by
/// the digest of the token after `Bearer `, under the name of the key with
/// that digest, and nobody is known whose digest no key has.
pub proof fn law_clients_are_known_by_their_digest(
    clients: Seq<(Seq<char>, Seq<char>)>,
    token: Seq<char>,
)
    ensures
        client_of(None, Some("Bearer "@ + token)) == Some("local"@),
        match client_of(Some(clients), Some("Bearer "@ + token)) {
            Some(name) => exists|i: int| #[trigger]
                is_last_of(clients, sha256_hex_of(token), i) && clients[i].1 == name,
            None => forall|k: int|
                0 <= k < clients.len() ==> (#[trigger] clients[k]).0 != sha256_hex_of(token),
        },
{
    let header = "Bearer "@ + token;
    assert("Bearer "@.is_prefix_of(header)) by {
        assert(header.take("Bearer "@.len() as int) =~= "Bearer "@);
    }
    assert(header.skip("Bearer "@.len() as int) =~= token);
    lemma_by_digest(clients, sha256_hex_of(token));
}

/// A header that is no bearer token counts as an empty one.
pub proof fn law_other_authorizations_are_empty_tokens(
    clients: Seq<(Seq<char>, Seq<char>)>,
    header: Option<Seq<char>>,
)
    requires
        header is Some ==> !"Bearer "@.is_prefix_of(header->0),
    ensures
        client_of(Some(clients), header) == client_of(Some(clients), Some("Bearer "@)),
{
    assert("Bearer "@.skip("Bearer "@.len() as int) =~= Seq::<char>::empty());
}

/// What may be retried is busy or broken upstream: too many requests, or one
/// of the server errors that pass. Anything that succeeded, and any other
/// complaint about the request, is not.
pub proof fn law_what_is_retried(status: u16)
    ensures
        is_retryable(status) ==> status == 429 || 500 <= status < 600,
        status < 429 ==> !is_retryable(status),
        429 < status < 500 ==> !is_retryable(status),
        status == 501 || status > 504 ==> !is_retryable(status),
        status == 429 || status == 500 || 502 <= status <= 504 ==> is_retryable(status),
{
}

/// Backing off takes the seconds that upstream names, where it names a plain
/// number, and ten where it names none.
pub proof fn law_backing_off(raw: Seq<char>)
    ensures
        backoff_of(None) == 10,
        digits_only(raw) && number_read(raw) <= u64::MAX ==> backoff_of(Some(raw)) == number_read(
            raw,
        ),
        digits_only(raw) && number_read(raw) > u64::MAX ==> backoff_of(Some(raw)) == 10,
{
    if digits_only(raw) {
        lemma_u64(raw);
    }
}

/// A catalog is kept exactly when upstream succeeded, and a lane cools down
/// exactly when upstream is to be retried, for as long as it says.
pub proof fn law_catalog_answers(status: u16, retry_after: Option<Seq<char>>)
    ensures
        catalog_verdict(status, retry_after) is Store <==> 200 <= status < 300,
        catalog_verdict(status, retry_after) is CoolDown <==> is_retryable(status),
        is_retryable(status) && backoff_of(retry_after) <= u64::MAX ==> catalog_verdict(
            status,
            retry_after,
        ) == (CatalogAnswer::CoolDown { secs: backoff_of(retry_after) as u64 }),
{
}

proof fn lemma_hashed(writes: Seq<Seq<u8>>, messages: Seq<JsonV>)
    ensures
        hashed_messages(writes, messages).len() == writes.len() + 2 * messages.len(),
        writes.is_prefix_of(hashed_messages(writes, messages)),
        forall|k: int|
            0 <= k < messages.len() ==> hashed_messages(writes, messages)[writes.len() + 2 * k]
                == encode_utf8(json_text(#[trigger] messages[k])) && hashed_messages(
                writes,
                messages,
            )[writes.len() + 2 * k + 1] == seq![0xffu8],
    decreases messages.len(),
{
    if messages.len() > 0 {
        let head = messages.drop_last();
        lemma_hashed(writes, head);
        let before = hashed_messages(writes, head);
        let all = hashed_messages(writes, messages);
        assert forall|k: int| 0 <= k < messages.len() implies all[writes.len() + 2 * k]
            == encode_utf8(json_text(#[trigger] messages[k])) && all[writes.len() + 2 * k + 1]
            == seq![0xffu8] by {
            if k < head.len() {
                assert(head[k] == messages[k]);
                assert(all[writes.len() + 2 * k] == before[writes.len() + 2 * k]);
                assert(all[writes.len() + 2 * k + 1] == before[writes.len() + 2 * k + 1]);
            }
        }
    }
}

/// A conversation sticks to its lane by its model and its first two
/// messages, which are all that is hashed, each ended by a byte that no text
/// holds; what comes later does not move it.
pub proof fn law_conversations_stick(body: JsonV, longer: JsonV)
    ensures
        ({
            let n = body.list("messages"@).len();
            let w = conversation_writes(body);
            let m = if n < 2 {
                n as int
            } else {
                2
            };
            &&& w.len() == 2 + 2 * m
            &&& w[0] == encode_utf8(
                match body.get_str("model"@) {
                    Some(model) => model,
                    None => Seq::empty(),
                },
            )
            &&& w[1] == seq![0xffu8]
            &&& forall|k: int|
                0 <= k < m ==> w[2 + 2 * k] == encode_utf8(
                    json_text(#[trigger] body.list("messages"@)[k]),
                ) && w[3 + 2 * k] == seq![0xffu8]
        }),
        body.list("messages"@).len() >= 2 && longer.get_str("model"@) == body.get_str("model"@)
            && longer.list("messages"@).len() >= 2 && longer.list("messages"@)[0] == body.list(
            "messages"@,
        )[0] && longer.list("messages"@)[1] == body.list("messages"@)[1] ==> conversation_writes(
            longer,
        ) == conversation_writes(body),
{
    let start = crate::proxy::affinity::hashed_text(
        Seq::empty(),
        crate::text::or_empty(body.get_str("model"@)),
    );
    let two = crate::proxy::affinity::first_two(body.list("messages"@));
    lemma_hashed(start, two);
    let w = conversation_writes(body);
    let n = body.list("messages"@).len();
    let m = if n < 2 {
        n as int
    } else {
        2
    };
    assert(two.len() == m);
    assert forall|k: int| 0 <= k < m implies w[2 + 2 * k] == encode_utf8(
        json_text(#[trigger] body.list("messages"@)[k]),
    ) && w[3 + 2 * k] == seq![0xffu8] by {
        assert(two[k] == body.list("messages"@)[k]);
        assert(w[start.len() + 2 * k] == encode_utf8(json_text(two[k])));
    }
    assert(w[0] == start[0] && w[1] == start[1]);
    if n >= 2 && longer.list("messages"@).len() >= 2 {
        assert(longer.list("messages"@)[0] == body.list("messages"@)[0] && longer.list(
            "messages"@,
        )[1] == body.list("messages"@)[1] ==> crate::proxy::affinity::first_two(
            longer.list("messages"@),
        ) =~= two);
    }
}

/// A request goes upstream under the lane's own key, with the client's own
/// content type and accepted types where it named them, and no other header.
pub proof fn law_upstream_headers(
    key: Seq<char>,
    content_type: Option<Seq<u8>>,
    accept: Option<Seq<u8>>,
    h: (Seq<char>, Seq<u8>),
)
    ensures
        upstream_headers(key, content_type, accept).len() > 0,
        upstream_headers(key, content_type, accept)[0] == (
            "authorization"@,
            encode_utf8("Bearer "@ + key),
        ),
        upstream_headers(key, content_type, accept).contains(h) <==> h == (
            "authorization"@,
            encode_utf8("Bearer "@ + key),
        ) || (content_type is Some && h == ("content-type"@, content_type->0)) || (accept is Some
            && h == ("accept"@, accept->0)),
{
    let first = ("authorization"@, encode_utf8("Bearer "@ + key));
    let base = seq![first];
    let one = crate::proxy::upstream::with_header(base, "content-type"@, content_type);
    let two = upstream_headers(key, content_type, accept);
    assert(base[0] == first);
    assert(one[0] == first);
    assert(two[0] == first);
    if content_type is Some {
        assert(one[1] == ("content-type"@, content_type->0));
        assert(two[1] == one[1]);
    }
    if accept is Some {
        assert(two[two.len() - 1] == ("accept"@, accept->0));
    }
    assert forall|i: int| 0 <= i < two.len() implies #[trigger] two[i] == first || (content_type
        is Some && two[i] == ("content-type"@, content_type->0)) || (accept is Some && two[i] == (
        "accept"@,
        accept->0,
    )) by {}
}

/// Generation is what the governor paces: chats and completions of a named
/// model, where it is switched on.
pub proof fn law_what_is_paced(enabled: bool, model: Seq<char>, path: Seq<char>)
    ensures
        is_gated(enabled, model, path) ==> enabled && model != "none"@,
        is_gated(enabled, model, path) ==> path == "/v1/chat/completions"@ || path
            == "/v1/completions"@,
        enabled && model != "none"@ ==> is_gated(enabled, model, "/v1/chat/completions"@)
            && is_gated(enabled, model, "/v1/completions"@),
{
}

}
