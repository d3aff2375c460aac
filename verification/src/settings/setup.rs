//! The first-run claim: one atomic change that makes the superuser.
use crate::api::{refusal, refuse, MintedClientKey, Refused, RefusedV, SetupResponse};
use crate::config::{
    client_keys_view, nim_keys_view, ClientKey, ClientKeyV, NimKey, NimKeyV, Role, StoreV,
    StoredConfig, User, UserV,
};
use crate::settings::keys::{
    client_key, is_secret, mint_client_secret, new_nim_key, nim_key, stored_key,
};
use crate::settings::refusals::{
    bad, bad_request, claimed, outcome, setup_complete, throttled, too_many, too_short, weak,
    weak_password, MIN_PASSWORD_CHARS,
};
use crate::settings::requests::{SetupKey, SetupReq};
use crate::settings::sections::{tidy, tidy_url};
use crate::settings::store::Committed;
use crate::settings::users::{hash_ticket, HashTicket};
use crate::text::{starts_with, trim, trimmed};
use vstd::prelude::*;

verus! {

/// A claim that came while setup was open.
#[derive(Debug)]
pub struct SetupOpen {
    open: (),
}

/// A claim whose password is long enough.
#[derive(Debug)]
pub struct SetupWeighed {
    password: String,
}

impl SetupWeighed {
    /// The password the claim brings.
    pub closed spec fn secret(self) -> Seq<char> {
        self.password@
    }
}

/// Only an unclaimed server takes a claim.
pub fn setup_gate(setup_required: bool) -> (r: Result<SetupOpen, Refused>)
    ensures
        match r {
            Ok(_) => setup_required,
            Err(e) => !setup_required && e@ == claimed(),
        },
{
    if !setup_required {
        return Err(setup_complete());
    }
    Ok(SetupOpen { open: () })
}

/// Whether a claim comes from a native form, by its content type.
pub fn is_form(content_type: Option<&str>) -> (r: bool)
    ensures
        r == (content_type matches Some(t)
            && "application/x-www-form-urlencoded"@.is_prefix_of(t@)),
{
    match content_type {
        Some(t) => starts_with(t, "application/x-www-form-urlencoded"),
        None => false,
    }
}

/// Answer a native form that cannot be read.
pub fn invalid_form() -> (r: Refused)
    ensures
        r@ == refusal(400, "invalid_form"@, "invalid form"@),
{
    refuse(400, "invalid_form", "invalid form")
}

/// Only a long enough password goes on.
pub fn setup_weigh(open: SetupOpen, password: &str) -> (r: Result<SetupWeighed, Refused>)
    ensures
        match r {
            Ok(w) => password@.len() >= MIN_PASSWORD_CHARS && w.secret() == password@,
            Err(e) => password@.len() < MIN_PASSWORD_CHARS && e@ == weak(),
        },
{
    if too_short(password) {
        return Err(weak_password());
    }
    Ok(SetupWeighed { password: password.to_owned() })
}

/// Only a claim that the limiter lets through may have its password hashed:
/// hashing is deliberately slow, and nobody has signed in yet.
pub fn setup_limit(weighed: SetupWeighed, let_through: bool) -> (r: Result<HashTicket, Refused>)
    ensures
        match r {
            Ok(t) => let_through && t.secret() == weighed.secret(),
            Err(e) => !let_through && e@ == too_many(),
        },
{
    if !let_through {
        return Err(throttled());
    }
    Ok(hash_ticket(&weighed.password))
}

/// The NIM keys, all made `owner`'s.
pub open spec fn adopted_nim(keys: Seq<NimKeyV>, owner: Seq<char>) -> Seq<NimKeyV> {
    Seq::new(keys.len(), |i: int| NimKeyV { owner, ..keys[i] })
}

/// The client keys, all made `owner`'s.
pub open spec fn adopted_clients(keys: Seq<ClientKeyV>, owner: Seq<char>) -> Seq<ClientKeyV> {
    Seq::new(keys.len(), |i: int| ClientKeyV { owner, ..keys[i] })
}

/// The NIM keys a claim brings.
pub open spec fn brought(keys: Seq<SetupKey>, owner: Seq<char>) -> Seq<NimKeyV> {
    Seq::new(keys.len(), |i: int| new_nim_key(keys[i].key@, keys[i].rpm, owner))
}

/// What a claim makes of the store: the claimer is its one user and its
/// superuser, and adopts every key that is there. `hash` is what the password
/// was hashed to, which must not be too short, and `secret` the one minted
/// where a client key is asked for.
pub open spec fn claim_change(
    store: StoreV,
    req: SetupReq,
    hash: Seq<char>,
    secret: Seq<char>,
) -> Result<StoreV, RefusedV> {
    if store.superuser() is Some {
        Err(claimed())
    } else if req.password@.len() < MIN_PASSWORD_CHARS {
        Err(weak())
    } else {
        let name = req.username@;
        Ok(
            StoreV {
                users: seq![
                    UserV {
                        username: name,
                        password_hash: hash,
                        role: Role::Superuser,
                        locale: None,
                    },
                ],
                base_url: match req.base_url {
                    Some(b) => tidy_url(b@),
                    None => store.base_url,
                },
                nim_keys: adopted_nim(store.nim_keys, name) + brought(req.nim_keys@, name),
                client_keys: match req.create_client_key {
                    Some(ck) => adopted_clients(store.client_keys, name).push(
                        stored_key(ck.name@, secret, name),
                    ),
                    None => adopted_clients(store.client_keys, name),
                },
                ..store
            },
        )
    }
}

fn adopt_nim(keys: &mut Vec<NimKey>, owner: &str)
    ensures
        nim_keys_view(final(keys)@) == adopted_nim(nim_keys_view(old(keys)@), owner@),
{
    let ghost before = nim_keys_view(keys@);
    let mut i: usize = 0;
    while i < keys.len()
        invariant
            i <= keys@.len(),
            keys@.len() == before.len(),
            forall|j: int|
                0 <= j < keys@.len() ==> (#[trigger] keys@[j])@ == if j < i {
                    NimKeyV { owner: owner@, ..before[j] }
                } else {
                    before[j]
                },
        decreases keys@.len() - i,
    {
        let mut k = keys[i].clone();
        k.owner = owner.to_owned();
        keys.set(i, k);
        i = i + 1;
    }
    assert(nim_keys_view(keys@) =~= adopted_nim(before, owner@));
}

fn adopt_clients(keys: &mut Vec<ClientKey>, owner: &str)
    ensures
        client_keys_view(final(keys)@) == adopted_clients(client_keys_view(old(keys)@), owner@),
{
    let ghost before = client_keys_view(keys@);
    let mut i: usize = 0;
    while i < keys.len()
        invariant
            i <= keys@.len(),
            keys@.len() == before.len(),
            forall|j: int|
                0 <= j < keys@.len() ==> (#[trigger] keys@[j])@ == if j < i {
                    ClientKeyV { owner: owner@, ..before[j] }
                } else {
                    before[j]
                },
        decreases keys@.len() - i,
    {
        let mut k = keys[i].clone();
        k.owner = owner.to_owned();
        keys.set(i, k);
        i = i + 1;
    }
    assert(client_keys_view(keys@) =~= adopted_clients(before, owner@));
}

fn bring(keys: &mut Vec<NimKey>, new: &Vec<SetupKey>, owner: &str)
    ensures
        nim_keys_view(final(keys)@) == nim_keys_view(old(keys)@) + brought(new@, owner@),
{
    let ghost before = nim_keys_view(keys@);
    let ghost all = brought(new@, owner@);
    let mut i: usize = 0;
    while i < new.len()
        invariant
            i <= new@.len(),
            all == brought(new@, owner@),
            nim_keys_view(keys@) =~= before + all.take(i as int),
        decreases new@.len() - i,
    {
        let ghost had = nim_keys_view(keys@);
        let k = nim_key(&new[i].key, new[i].rpm, owner);
        assert(k@ == all[i as int]);
        keys.push(k);
        assert(nim_keys_view(keys@) =~= had.push(all[i as int]));
        i = i + 1;
    }
    assert(all.take(i as int) =~= all);
}

/// The store a claim asks for, with the secret minted for its first client
/// key.
pub fn claim_with(store: &StoredConfig, req: &SetupReq, hash: &str, secret: &str) -> (r: Result<
    StoredConfig,
    Refused,
>)
    ensures
        outcome(r) == claim_change(store@, *req, hash@, secret@),
{
    if store.superuser().is_some() {
        return Err(setup_complete());
    }
    if too_short(&req.password) {
        return Err(weak_password());
    }
    let mut cand = store.clone();
    let mut users: Vec<User> = Vec::new();
    users.push(
        User {
            username: req.username.clone(),
            password_hash: hash.to_owned(),
            role: Role::Superuser,
            locale: None,
        },
    );
    cand.users = users;
    adopt_nim(&mut cand.upstream.nim_keys, &req.username);
    adopt_clients(&mut cand.client_auth.keys, &req.username);
    if let Some(b) = &req.base_url {
        cand.upstream.base_url = tidy(b);
    }
    bring(&mut cand.upstream.nim_keys, &req.nim_keys, &req.username);
    if let Some(ck) = &req.create_client_key {
        cand.client_auth.keys.push(client_key(&ck.name, secret, &req.username));
    }
    assert(cand@ =~= claim_change(store@, *req, hash@, secret@)->Ok_0);
    Ok(cand)
}

/// What a claim leads to.
#[derive(Debug)]
pub enum ClaimStep {
    /// Commit this store; show the minted key, if any, once it is in.
    Commit(StoredConfig, Option<MintedClientKey>),
    Refuse(Refused),
    /// The system gave no randomness for a secret.
    NoRandomness,
}

/// Carry out a claim: a secret is minted exactly where a client key is asked
/// for and the claim is not refused.
pub fn claim(store: &StoredConfig, req: &SetupReq, hash: &str) -> (r: ClaimStep)
    ensures
        match r {
            ClaimStep::Commit(cand, Some(minted)) => {
                &&& req.create_client_key matches Some(ck) && minted.name@ == trimmed(ck.name@)
                &&& is_secret(minted.secret@)
                &&& claim_change(store@, *req, hash@, minted.secret@) == Ok::<StoreV, RefusedV>(
                    cand@,
                )
            },
            ClaimStep::Commit(cand, None) => {
                &&& req.create_client_key is None
                &&& forall|secret: Seq<char>|
                    #[trigger] claim_change(store@, *req, hash@, secret) == Ok::<
                        StoreV,
                        RefusedV,
                    >(cand@)
            },
            ClaimStep::Refuse(e) => forall|secret: Seq<char>|
                #[trigger] claim_change(store@, *req, hash@, secret) == Err::<StoreV, RefusedV>(
                    e@,
                ),
            ClaimStep::NoRandomness => {
                &&& store@.superuser() is None
                &&& req.password@.len() >= MIN_PASSWORD_CHARS
                &&& req.create_client_key is Some
            },
        },
{
    if store.superuser().is_some() {
        return ClaimStep::Refuse(setup_complete());
    }
    if too_short(&req.password) {
        return ClaimStep::Refuse(weak_password());
    }
    match &req.create_client_key {
        Some(ck) => match mint_client_secret() {
            Some(secret) => match claim_with(store, req, hash, &secret) {
                Ok(cand) => ClaimStep::Commit(
                    cand,
                    Some(MintedClientKey { name: trim(&ck.name).to_owned(), secret }),
                ),
                Err(e) => ClaimStep::Refuse(e),
            },
            None => ClaimStep::NoRandomness,
        },
        None => match claim_with(store, req, hash, "") {
            Ok(cand) => ClaimStep::Commit(cand, None),
            Err(e) => ClaimStep::Refuse(e),
        },
    }
}

/// How a claim is answered.
#[derive(Debug)]
pub enum ClaimAnswer {
    /// Signed in and sent to the front page: a native form.
    SeeOther,
    /// Signed in, with this body.
    Body(SetupResponse),
    Refuse(Refused),
}

/// Answer a claim that was committed, or could not be.
pub fn claim_answer(
    form: bool,
    minted: Option<MintedClientKey>,
    committed: Result<Committed, String>,
) -> (r: ClaimAnswer)
    ensures
        match committed {
            Err(e) => r matches ClaimAnswer::Refuse(refusal) && refusal@ == bad(e@),
            Ok(_) => if form {
                r is SeeOther
            } else {
                r == ClaimAnswer::Body(SetupResponse { client_key: minted, ok: true })
            },
        },
{
    match committed {
        Err(e) => ClaimAnswer::Refuse(bad_request(&e)),
        Ok(_) => if form {
            ClaimAnswer::SeeOther
        } else {
            ClaimAnswer::Body(SetupResponse { client_key: minted, ok: true })
        },
    }
}

}
