//! What a request must pass before it is served: the in-flight cap, the
//! client key and the deadline header; and the model governor's permits.
use crate::digest::{ct_eq, sha256_hex, sha256_hex_of};
use crate::numbers::{parse_u64, u64_in};
use crate::proxy::replies::{
    invalid_deadline, invalid_deadline_reply, overloaded, overloaded_reply, unauthorized,
    unauthorized_reply, Reply,
};
use crate::text::{chars_of, opt_str, same, starts_with, text_of};
use vstd::prelude::*;

verus! {

broadcast use vstd::string::group_string_axioms;

/// The header that sets a request's deadline.
pub const DEADLINE_HEADER: &'static str = "x-nim-proxy-deadline-ms";

/// Whether a text is one or more decimal digits.
pub open spec fn all_digits(s: Seq<char>) -> bool {
    s.len() > 0 && forall|i: int| 0 <= i < s.len() ==> '0' <= #[trigger] s[i] <= '9'
}

/// The views of header values; one that is no text has none.
pub open spec fn header_values(values: Seq<Option<String>>) -> Seq<Option<Seq<char>>> {
    values.map_values(|v: Option<String>| crate::text::opt_text(v))
}

/// The deadline that header values set, in milliseconds: none where there
/// is no header, and an error unless there is exactly one and it is an
/// unsigned decimal of 64 bits.
pub open spec fn deadline_in(values: Seq<Option<Seq<char>>>) -> Result<Option<nat>, ()> {
    if values.len() == 0 {
        Ok(None)
    } else if values.len() > 1 {
        Err(())
    } else {
        match values[0] {
            None => Err(()),
            Some(raw) => if !all_digits(raw) {
                Err(())
            } else {
                match u64_in(raw) {
                    Some(ms) => Ok(Some(ms)),
                    None => Err(()),
                }
            },
        }
    }
}

fn only_digits(s: &str) -> (r: bool)
    ensures
        r == all_digits(s@),
{
    let chars = chars_of(s);
    let mut i: usize = 0;
    while i < chars.len()
        invariant
            i <= chars@.len(),
            chars@ == s@,
            forall|j: int| 0 <= j < i ==> '0' <= #[trigger] s@[j] <= '9',
        decreases chars@.len() - i,
    {
        let c: char = chars[i];
        assert(c == s@[i as int]);
        if !('0' <= c && c <= '9') {
            return false;
        }
        i = i + 1;
    }
    chars.len() > 0
}

/// Read the deadline header: one value, digits only.
pub fn parse_request_deadline(values: &Vec<Option<String>>) -> (r: Result<Option<u64>, ()>)
    ensures
        match (r, deadline_in(header_values(values@))) {
            (Ok(Some(a)), Ok(Some(b))) => a == b,
            (Ok(None), Ok(None)) => true,
            (Err(_), Err(_)) => true,
            _ => false,
        },
{
    if values.len() == 0 {
        return Ok(None);
    }
    if values.len() > 1 {
        return Err(());
    }
    assert(header_values(values@)[0] == crate::text::opt_text(values@[0]));
    match &values[0] {
        None => Err(()),
        Some(raw) => {
            if !only_digits(raw.as_str()) {
                return Err(());
            }
            match parse_u64(raw.as_str()) {
                Some(ms) => Ok(Some(ms)),
                None => Err(()),
            }
        },
    }
}

/// The bearer token of an `Authorization` header; empty where there is
/// none.
pub open spec fn bearer_token(authorization: Option<Seq<char>>) -> Seq<char> {
    match authorization {
        Some(s) => if "Bearer "@.is_prefix_of(s) {
            s.skip("Bearer "@.len() as int)
        } else {
            Seq::empty()
        },
        None => Seq::empty(),
    }
}

/// The views of stored client keys: digest and name.
pub open spec fn clients_view(clients: Seq<(String, String)>) -> Seq<(Seq<char>, Seq<char>)> {
    clients.map_values(|c: (String, String)| (c.0@, c.1@))
}

/// The name of the last client whose stored digest is the given one.
pub open spec fn client_by_digest(
    clients: Seq<(Seq<char>, Seq<char>)>,
    digest: Seq<char>,
) -> Option<Seq<char>>
    decreases clients.len(),
{
    if clients.len() == 0 {
        None
    } else if clients.last().0 == digest {
        Some(clients.last().1)
    } else {
        client_by_digest(clients.drop_last(), digest)
    }
}

/// The client a request comes from: open mode admits everyone as `local`,
/// keyed mode whoever presents a token with a stored digest.
pub open spec fn client_of(
    clients: Option<Seq<(Seq<char>, Seq<char>)>>,
    authorization: Option<Seq<char>>,
) -> Option<Seq<char>> {
    match clients {
        None => Some("local"@),
        Some(clients) => client_by_digest(clients, sha256_hex_of(bearer_token(authorization))),
    }
}

fn token_of(authorization: Option<&str>) -> (r: String)
    ensures
        r@ == bearer_token(opt_str(authorization)),
{
    match authorization {
        Some(s) => {
            if starts_with(s, "Bearer ") {
                let chars = chars_of(s);
                proof {
                    reveal_strlit("Bearer ");
                }
                let token = text_of(&chars, 7, chars.len());
                assert(token@ == s@.skip(7));
                token
            } else {
                String::new()
            }
        },
        None => String::new(),
    }
}

/// The client with the given digest. All of the digest is compared with all
/// of the stored ones.
pub fn match_client(clients: &Vec<(String, String)>, digest: &str) -> (r: Option<String>)
    ensures
        crate::text::opt_text(r) == client_by_digest(clients_view(clients@), digest@),
{
    let ghost all = clients_view(clients@);
    let mut matched: Option<String> = None;
    let mut i: usize = 0;
    assert(all.take(0) == Seq::<(Seq<char>, Seq<char>)>::empty());
    while i < clients.len()
        invariant
            i <= clients@.len(),
            all == clients_view(clients@),
            crate::text::opt_text(matched) == client_by_digest(all.take(i as int), digest@),
        decreases clients@.len() - i,
    {
        assert(all.take(i + 1).drop_last() == all.take(i as int));
        assert(all.take(i + 1).last() == (clients@[i as int].0@, clients@[i as int].1@));
        if ct_eq(clients[i].0.as_str(), digest) {
            matched = Some(clients[i].1.clone());
        }
        i = i + 1;
    }
    assert(all.take(all.len() as int) == all);
    matched
}

/// Why a request is turned away.
#[derive(Clone, Copy, Debug, PartialEq, Eq, Structural)]
pub enum Refusal {
    /// More requests are in flight than the cap allows.
    Overloaded,
    /// No stored client key matches.
    Unauthorized,
    /// The deadline header is malformed.
    InvalidDeadline,
}

/// What an admitted request is known by.
#[derive(Debug)]
pub struct Admitted {
    pub client: String,
    pub deadline_ms: Option<u64>,
}

/// The verdict on a request: the in-flight cap first, then the client key,
/// then the deadline.
pub open spec fn admission(
    inflight: usize,
    max_inflight: usize,
    client: Option<Seq<char>>,
    deadline: Result<Option<nat>, ()>,
) -> Result<(Seq<char>, Option<nat>), Refusal> {
    if inflight > max_inflight {
        Err(Refusal::Overloaded)
    } else {
        match client {
            None => Err(Refusal::Unauthorized),
            Some(client) => match deadline {
                Err(_) => Err(Refusal::InvalidDeadline),
                Ok(ms) => Ok((client, ms)),
            },
        }
    }
}

/// The view of a verdict.
pub open spec fn admission_view(r: Result<Admitted, Refusal>) -> Result<
    (Seq<char>, Option<nat>),
    Refusal,
> {
    match r {
        Ok(a) => Ok(
            (
                a.client@,
                match a.deadline_ms {
                    Some(ms) => Some(ms as nat),
                    None => None,
                },
            ),
        ),
        Err(e) => Err(e),
    }
}

/// Everything both /v1 entry points share before the pipeline: the
/// in-flight cap, client-key auth, and deadline parsing. `inflight` counts
/// this request. Client auth: open mode admits everyone as "local"; keyed
/// mode hashes the presented bearer and compares against the stored
/// SHA-256 digests (the store never holds a usable token).
pub fn shared_guard(
    inflight: usize,
    max_inflight: usize,
    clients: &Option<Vec<(String, String)>>,
    authorization: Option<&str>,
    deadlines: &Vec<Option<String>>,
) -> (r: Result<Admitted, Refusal>)
    ensures
        admission_view(r) == admission(
            inflight,
            max_inflight,
            client_of(
                match *clients {
                    Some(c) => Some(clients_view(c@)),
                    None => None,
                },
                opt_str(authorization),
            ),
            deadline_in(header_values(deadlines@)),
        ),
{
    if inflight > max_inflight {
        return Err(Refusal::Overloaded);
    }
    let client = match clients {
        None => "local".to_owned(),
        Some(clients) => {
            let digest = sha256_hex(token_of(authorization).as_str());
            match match_client(clients, digest.as_str()) {
                Some(name) => name,
                None => {
                    return Err(Refusal::Unauthorized);
                },
            }
        },
    };
    match parse_request_deadline(deadlines) {
        Ok(deadline_ms) => Ok(Admitted { client, deadline_ms }),
        Err(_) => Err(Refusal::InvalidDeadline),
    }
}

/// The answer to a refused request.
pub fn refusal_reply(refusal: Refusal, max_inflight: usize) -> (r: Reply)
    ensures
        r@ == match refusal {
            Refusal::Overloaded => overloaded_reply(max_inflight),
            Refusal::Unauthorized => unauthorized_reply(),
            Refusal::InvalidDeadline => invalid_deadline_reply(),
        },
{
    match refusal {
        Refusal::Overloaded => overloaded(max_inflight),
        Refusal::Unauthorized => unauthorized(),
        Refusal::InvalidDeadline => invalid_deadline(),
    }
}

/// Whether the model governor gates a request: it is on, the request names
/// a model, and the path generates.
pub open spec fn is_gated(enabled: bool, model: Seq<char>, path: Seq<char>) -> bool {
    enabled && model != "none"@ && (path == "/v1/chat/completions"@ || path == "/v1/completions"@)
}

/// Whether the model governor gates a request.
pub fn gated(enabled: bool, model: &str, path: &str) -> (r: bool)
    ensures
        r == is_gated(enabled, model@, path@),
{
    enabled && !same(model, "none") && (same(path, "/v1/chat/completions") || same(
        path,
        "/v1/completions",
    ))
}

/// What a request that waits for a model permit does next.
#[derive(Clone, Copy, Debug, PartialEq, Eq, Structural)]
pub enum PermitStep {
    /// The permit is there.
    Granted,
    /// The next poll would come after the deadline.
    Expired,
    /// Sleep for one poll interval, then ask again.
    Poll,
}

/// What a turn of the permit loop comes to.
pub open spec fn permit_turn(admitted: bool, now: nat, poll: nat, deadline: nat) -> PermitStep {
    if admitted {
        PermitStep::Granted
    } else if now + poll > deadline {
        PermitStep::Expired
    } else {
        PermitStep::Poll
    }
}

/// A permit is taken whatever the time, and nobody sleeps past their
/// deadline: a request polls on exactly while its next poll is in time.
pub proof fn law_nobody_sleeps_past_the_deadline(
    admitted: bool,
    now: nat,
    poll: nat,
    deadline: nat,
)
    ensures
        permit_turn(admitted, now, poll, deadline) is Granted <==> admitted,
        permit_turn(admitted, now, poll, deadline) is Poll <==> !admitted && now + poll
            <= deadline,
{
}

/// One turn of the permit loop, times in milliseconds: a permit ends it,
/// and so does a deadline that the next poll would miss.
pub fn permit_step(admitted: bool, now: u64, poll: u64, deadline: u64) -> (r: PermitStep)
    ensures
        r is Granted <==> admitted,
        r is Expired <==> !admitted && now + poll > deadline,
        r == permit_turn(admitted, now as nat, poll as nat, deadline as nat),
{
    if admitted {
        PermitStep::Granted
    } else if now > deadline || poll > deadline - now {
        PermitStep::Expired
    } else {
        PermitStep::Poll
    }
}

/// Whether a heartbeat is due after a poll.
pub fn heartbeat_due(now: u64, next_heartbeat: u64) -> (r: bool)
    ensures
        r == (now >= next_heartbeat),
{
    now >= next_heartbeat
}

}
