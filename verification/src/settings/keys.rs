//! NIM keys and client keys: who may add, change and revoke which.
use crate::api::{Refused, RefusedV};
use crate::config::{
    client_keys_view, nim_keys_view, ClientKey, ClientKeyV, Mode, NimKey, NimKeyV, StoreV,
    StoredConfig,
};
use crate::digest::{hex, hex_text, sha256_hex, sha256_hex_of};
use crate::lists::{first_where, lemma_first_found, lemma_first_step};
use crate::settings::refusals::{
    bad, bad_request, forbidden, forbidden_for, outcome, role_in, role_of, stale, stale_session,
};
use crate::settings::requests::{ClientsReq, NimKeysReq, SetNimKey};
use crate::text::{chars_of, concat, same, text_of, trim, trimmed};
use vstd::prelude::*;

verus! {

/// Requests per minute of a key whose lane names no rate.
pub const DEFAULT_RPM: usize = 40;

/// The stable public identifier of a stored NIM key: the first 8 hexadecimal
/// characters of its SHA-256 digest.
pub open spec fn fingerprint_of(key: Seq<char>) -> Seq<char> {
    sha256_hex_of(key).take(8)
}

/// The last four characters, or all of them where there are fewer.
pub open spec fn tail4(s: Seq<char>) -> Seq<char> {
    if s.len() <= 4 {
        s
    } else {
        s.skip(s.len() - 4)
    }
}

/// The client secret made of random bytes.
pub open spec fn secret_text(raw: Seq<u8>) -> Seq<char> {
    "npk_"@ + hex_text(raw)
}

/// Whether `s` is a client secret of 128 random bits.
pub open spec fn is_secret(s: Seq<char>) -> bool {
    exists|raw: Seq<u8>| raw.len() == 16 && s == #[trigger] secret_text(raw)
}

/// The public identifier of a NIM key.
pub fn fingerprint(key: &str) -> (r: String)
    ensures
        r@ == fingerprint_of(key@),
        r@.len() == 8,
{
    let digest = chars_of(&sha256_hex(key));
    assert(digest@.subrange(0, 8) == digest@.take(8));
    text_of(&digest, 0, 8)
}

/// The last four characters.
pub fn last4(s: &str) -> (r: String)
    ensures
        r@ == tail4(s@),
{
    let chars = chars_of(s);
    let n: usize = chars.len();
    if n <= 4 {
        assert(chars@.subrange(0, n as int) == chars@);
        text_of(&chars, 0, n)
    } else {
        assert(chars@.subrange(n - 4, n as int) == chars@.skip(n - 4));
        text_of(&chars, n - 4, n)
    }
}

/// `getrandom::getrandom` on sixteen bytes: fills them from the system's
/// random source, or fails. What the bytes are is left open.
#[verifier::external_body]
fn random_bytes() -> (r: Option<Vec<u8>>)
    ensures
        r is Some ==> r->0@.len() == 16,
{
    let mut raw = [0u8; 16];
    getrandom::getrandom(&mut raw).ok().map(|_| raw.to_vec())
}

/// The client secret made of random bytes.
pub fn client_secret(raw: &Vec<u8>) -> (r: String)
    ensures
        r@ == secret_text(raw@),
{
    concat("npk_", &hex(raw.as_slice()))
}

/// A fresh client-key secret: `npk_` and 128 bits of the system's randomness.
/// `None` where the system has none to give. Only the digest is ever stored;
/// the caller shows the secret exactly once.
pub fn mint_client_secret() -> (r: Option<String>)
    ensures
        r is Some ==> is_secret(r->0@),
{
    secret_from(random_bytes())
}

/// The secret that the system's answer gives: one where it gave random bytes,
/// and none only where it gave none.
pub fn secret_from(raw: Option<Vec<u8>>) -> (r: Option<String>)
    ensures
        match raw {
            Some(bytes) => r is Some && r->0@ == secret_text(bytes@),
            None => r is None,
        },
{
    match raw {
        Some(bytes) => Some(client_secret(&bytes)),
        None => None,
    }
}

/// The stored form of a client key.
pub open spec fn stored_key(name: Seq<char>, secret: Seq<char>, owner: Seq<char>) -> ClientKeyV {
    ClientKeyV {
        name: trimmed(name),
        secret_sha256: sha256_hex_of(secret),
        last4: tail4(secret),
        owner,
    }
}

/// The stored form of a client key: its digest, never the secret.
pub fn client_key(name: &str, secret: &str, owner: &str) -> (r: ClientKey)
    ensures
        r@ == stored_key(name@, secret@, owner@),
{
    ClientKey {
        name: trim(name).to_owned(),
        secret_sha256: sha256_hex(secret),
        last4: last4(secret),
        owner: owner.to_owned(),
    }
}

/// The stored form of a new NIM key.
pub open spec fn new_nim_key(key: Seq<char>, rpm: Option<usize>, owner: Seq<char>) -> NimKeyV {
    NimKeyV {
        key: trimmed(key),
        owner,
        enabled: true,
        rpm: match rpm {
            Some(rpm) => rpm,
            None => DEFAULT_RPM,
        },
    }
}

/// A new NIM key, enabled.
pub fn nim_key(key: &str, rpm: Option<usize>, owner: &str) -> (r: NimKey)
    ensures
        r@ == new_nim_key(key@, rpm, owner@),
{
    NimKey {
        key: trim(key).to_owned(),
        owner: owner.to_owned(),
        enabled: true,
        rpm: match rpm {
            Some(rpm) => rpm,
            None => DEFAULT_RPM,
        },
    }
}

/// Being the NIM key with the given fingerprint.
pub open spec fn printed(fingerprint: Seq<char>) -> spec_fn(NimKeyV) -> bool {
    |k: NimKeyV| fingerprint_of(k.key) == fingerprint
}

/// Being the client key of the given name.
pub open spec fn key_named(name: Seq<char>) -> spec_fn(ClientKeyV) -> bool {
    |c: ClientKeyV| c.name == name
}

fn find_nim_key(keys: &Vec<NimKey>, print: &str) -> (r: Option<usize>)
    ensures
        match r {
            Some(i) => first_where(nim_keys_view(keys@), printed(print@)) == Some(i as int) && i
                < keys@.len(),
            None => first_where(nim_keys_view(keys@), printed(print@)) is None,
        },
{
    let ghost all = nim_keys_view(keys@);
    let ghost p = printed(print@);
    let mut i: usize = 0;
    while i < keys.len()
        invariant
            i <= keys@.len(),
            all == nim_keys_view(keys@),
            p == printed(print@),
            first_where(all.take(i as int), p) is None,
        decreases keys@.len() - i,
    {
        if same(&fingerprint(&keys[i].key), print) {
            proof {
                lemma_first_found(all, p, i as int);
            }
            return Some(i);
        }
        proof {
            lemma_first_step(all, p, i as int);
        }
        i = i + 1;
    }
    assert(all.take(i as int) == all);
    None
}

fn find_client_key(keys: &Vec<ClientKey>, name: &str) -> (r: Option<usize>)
    ensures
        match r {
            Some(i) => first_where(client_keys_view(keys@), key_named(name@)) == Some(i as int)
                && i < keys@.len(),
            None => first_where(client_keys_view(keys@), key_named(name@)) is None,
        },
{
    let ghost all = client_keys_view(keys@);
    let ghost p = key_named(name@);
    let mut i: usize = 0;
    while i < keys.len()
        invariant
            i <= keys@.len(),
            all == client_keys_view(keys@),
            p == key_named(name@),
            first_where(all.take(i as int), p) is None,
        decreases keys@.len() - i,
    {
        if same(&keys[i].name, name) {
            proof {
                lemma_first_found(all, p, i as int);
            }
            return Some(i);
        }
        proof {
            lemma_first_step(all, p, i as int);
        }
        i = i + 1;
    }
    assert(all.take(i as int) == all);
    None
}

/// A NIM key with what the request sets; the rest is left alone.
pub open spec fn adjusted(k: NimKeyV, set: SetNimKey) -> NimKeyV {
    NimKeyV {
        key: k.key,
        owner: k.owner,
        enabled: match set.enabled {
            Some(e) => e,
            None => k.enabled,
        },
        rpm: match set.rpm {
            Some(rpm) => rpm,
            None => k.rpm,
        },
    }
}

/// What a NIM-key request makes of the store. Any role may add keys and
/// manage its own; administrators manage any.
pub open spec fn nim_keys_change(
    store: StoreV,
    username: Seq<char>,
    req: NimKeysReq,
) -> Result<StoreV, RefusedV> {
    match role_in(store, username) {
        None => Err(stale()),
        Some(role) => match (req.add, req.remove, req.set) {
            (Some(add), None, None) => Ok(
                StoreV {
                    nim_keys: store.nim_keys.push(new_nim_key(add.key@, add.rpm, username)),
                    ..store
                },
            ),
            (None, Some(print), None) => match first_where(store.nim_keys, printed(print@)) {
                None => Err(bad("no such key"@)),
                Some(i) => if !role.admin() && store.nim_keys[i].owner != username {
                    Err(forbidden_for("you can only remove your own keys"@))
                } else {
                    Ok(StoreV { nim_keys: store.nim_keys.remove(i), ..store })
                },
            },
            (None, None, Some(set)) => match first_where(
                store.nim_keys,
                printed(set.fingerprint@),
            ) {
                None => Err(bad("no such key"@)),
                Some(i) => if !role.admin() && store.nim_keys[i].owner != username {
                    Err(forbidden_for("you can only change your own keys"@))
                } else {
                    Ok(
                        StoreV {
                            nim_keys: store.nim_keys.update(
                                i,
                                adjusted(store.nim_keys[i], set),
                            ),
                            ..store
                        },
                    )
                },
            },
            _ => Err(bad("send exactly one of add / remove / set"@)),
        },
    }
}

/// The store a NIM-key request asks for. The superuser's last enabled key is
/// protected by the validation of the candidate.
pub fn nim_keys(store: &StoredConfig, username: &str, req: &NimKeysReq) -> (r: Result<
    StoredConfig,
    Refused,
>)
    ensures
        outcome(r) == nim_keys_change(store@, username@, *req),
{
    let role = match role_of(store, username) {
        Some(role) => role,
        None => return Err(stale_session()),
    };
    let mut cand = store.clone();
    let ghost before = cand@;
    match (&req.add, &req.remove, &req.set) {
        (Some(add), None, None) => {
            cand.upstream.nim_keys.push(nim_key(&add.key, add.rpm, username));
            assert(cand@ =~= nim_keys_change(store@, username@, *req)->Ok_0);
        },
        (None, Some(print), None) => {
            let pos = match find_nim_key(&cand.upstream.nim_keys, print) {
                Some(pos) => pos,
                None => return Err(bad_request("no such key")),
            };
            assert(before.nim_keys[pos as int] == cand.upstream.nim_keys@[pos as int]@);
            if !role.is_admin() && !same(&cand.upstream.nim_keys[pos].owner, username) {
                return Err(forbidden("you can only remove your own keys"));
            }
            let _ = cand.upstream.nim_keys.remove(pos);
            assert(cand@ =~= nim_keys_change(store@, username@, *req)->Ok_0);
        },
        (None, None, Some(set)) => {
            let pos = match find_nim_key(&cand.upstream.nim_keys, &set.fingerprint) {
                Some(pos) => pos,
                None => return Err(bad_request("no such key")),
            };
            assert(before.nim_keys[pos as int] == cand.upstream.nim_keys@[pos as int]@);
            if !role.is_admin() && !same(&cand.upstream.nim_keys[pos].owner, username) {
                return Err(forbidden("you can only change your own keys"));
            }
            let mut key = cand.upstream.nim_keys[pos].clone();
            if let Some(enabled) = set.enabled {
                key.enabled = enabled;
            }
            if let Some(rpm) = set.rpm {
                key.rpm = rpm;
            }
            cand.upstream.nim_keys.set(pos, key);
            assert(cand@ =~= nim_keys_change(store@, username@, *req)->Ok_0);
        },
        _ => return Err(bad_request("send exactly one of add / remove / set")),
    }
    Ok(cand)
}

/// The mode that a request names.
pub open spec fn mode_named(name: Seq<char>) -> Option<Mode> {
    if name == "open"@ {
        Some(Mode::Open)
    } else if name == "keyed"@ {
        Some(Mode::Keyed)
    } else {
        None
    }
}

fn parse_mode(name: &str) -> (r: Option<Mode>)
    ensures
        r == mode_named(name@),
{
    if same(name, "open") {
        Some(Mode::Open)
    } else if same(name, "keyed") {
        Some(Mode::Keyed)
    } else {
        None
    }
}

/// What a client-key request makes of the store, where `secret` is the one
/// minted for a key that is added. Any role may add keys and revoke its own;
/// administrators revoke any and choose the mode.
pub open spec fn clients_change(
    store: StoreV,
    username: Seq<char>,
    req: ClientsReq,
    secret: Seq<char>,
) -> Result<StoreV, RefusedV> {
    match role_in(store, username) {
        None => Err(stale()),
        Some(role) => match (req.add, req.remove, req.mode) {
            (Some(add), None, None) => Ok(
                StoreV {
                    client_keys: store.client_keys.push(stored_key(add.name@, secret, username)),
                    ..store
                },
            ),
            (None, Some(name), None) => match first_where(store.client_keys, key_named(name@)) {
                None => Err(bad("no such client key"@)),
                Some(i) => if !role.admin() && store.client_keys[i].owner != username {
                    Err(forbidden_for("you can only revoke your own client keys"@))
                } else {
                    Ok(StoreV { client_keys: store.client_keys.remove(i), ..store })
                },
            },
            (None, None, Some(mode)) => if !role.admin() {
                Err(forbidden_for("changing the API access mode requires an admin"@))
            } else {
                match mode_named(mode@) {
                    Some(mode) => Ok(StoreV { mode, ..store }),
                    None => Err(bad("mode must be \"open\" or \"keyed\""@)),
                }
            },
            _ => Err(bad("send exactly one of add / remove / mode"@)),
        },
    }
}

/// Whether a client-key request adds a key, and nothing else.
pub open spec fn adds_client(req: ClientsReq) -> bool {
    req.add is Some && req.remove is None && req.mode is None
}

/// The store a client-key request asks for, with the secret minted for a key
/// that is added.
pub fn clients_with(store: &StoredConfig, username: &str, req: &ClientsReq, secret: &str) -> (r:
    Result<StoredConfig, Refused>)
    ensures
        outcome(r) == clients_change(store@, username@, *req, secret@),
{
    let role = match role_of(store, username) {
        Some(role) => role,
        None => return Err(stale_session()),
    };
    let mut cand = store.clone();
    let ghost before = cand@;
    match (&req.add, &req.remove, &req.mode) {
        (Some(add), None, None) => {
            cand.client_auth.keys.push(client_key(&add.name, secret, username));
            assert(cand@ =~= clients_change(store@, username@, *req, secret@)->Ok_0);
        },
        (None, Some(name), None) => {
            let pos = match find_client_key(&cand.client_auth.keys, name) {
                Some(pos) => pos,
                None => return Err(bad_request("no such client key")),
            };
            assert(before.client_keys[pos as int] == cand.client_auth.keys@[pos as int]@);
            if !role.is_admin() && !same(&cand.client_auth.keys[pos].owner, username) {
                return Err(forbidden("you can only revoke your own client keys"));
            }
            let _ = cand.client_auth.keys.remove(pos);
            assert(cand@ =~= clients_change(store@, username@, *req, secret@)->Ok_0);
        },
        (None, None, Some(mode)) => {
            if !role.is_admin() {
                return Err(forbidden("changing the API access mode requires an admin"));
            }
            match parse_mode(mode) {
                Some(mode) => {
                    cand.client_auth.mode = mode;
                },
                None => return Err(bad_request("mode must be \"open\" or \"keyed\"")),
            }
            assert(cand@ =~= clients_change(store@, username@, *req, secret@)->Ok_0);
        },
        _ => return Err(bad_request("send exactly one of add / remove / mode")),
    }
    Ok(cand)
}

/// What a client-key request leads to.
#[derive(Debug)]
pub enum ClientsStep {
    /// Commit this store; show the secret, if one was minted, once it is in.
    Commit(StoredConfig, Option<String>),
    Refuse(Refused),
    /// The system gave no randomness for a secret.
    NoRandomness,
}

/// Carry out a client-key request: a secret is minted exactly for a key that
/// is added.
pub fn clients(store: &StoredConfig, username: &str, req: &ClientsReq) -> (r: ClientsStep)
    ensures
        match r {
            ClientsStep::Commit(cand, Some(secret)) => {
                &&& adds_client(*req)
                &&& is_secret(secret@)
                &&& clients_change(store@, username@, *req, secret@) == Ok::<StoreV, RefusedV>(
                    cand@,
                )
            },
            ClientsStep::Commit(cand, None) => {
                &&& !adds_client(*req)
                &&& forall|secret: Seq<char>|
                    #[trigger] clients_change(store@, username@, *req, secret) == Ok::<
                        StoreV,
                        RefusedV,
                    >(cand@)
            },
            ClientsStep::Refuse(e) => forall|secret: Seq<char>|
                #[trigger] clients_change(store@, username@, *req, secret) == Err::<
                    StoreV,
                    RefusedV,
                >(e@),
            ClientsStep::NoRandomness => adds_client(*req) && role_in(store@, username@) is Some,
        },
{
    if role_of(store, username).is_some() && req.add.is_some() && req.remove.is_none()
        && req.mode.is_none() {
        match mint_client_secret() {
            Some(secret) => match clients_with(store, username, req, &secret) {
                Ok(cand) => ClientsStep::Commit(cand, Some(secret)),
                Err(e) => ClientsStep::Refuse(e),
            },
            None => ClientsStep::NoRandomness,
        }
    } else {
        match clients_with(store, username, req, "") {
            Ok(cand) => ClientsStep::Commit(cand, None),
            Err(e) => ClientsStep::Refuse(e),
        }
    }
}

}
