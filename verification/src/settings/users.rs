//! User management: create and delete users, reset passwords, change roles.
//! The superuser can be none of deleted, demoted or reset.
use crate::api::{Refused, RefusedV};
use crate::config::{
    called, client_keys_view, find_user, nim_keys_view, users_view, ClientKey, ClientKeyV, NimKey,
    NimKeyV, Role, StoreV, StoredConfig, User, UserV,
};
use crate::lists::{first_where, lemma_filter_start, lemma_filter_step};
use crate::settings::refusals::{
    admin_bar, bad, bad_request, forbidden, forbidden_for, outcome, require_admin, too_short, weak,
    weak_password, MIN_PASSWORD_CHARS,
};
use crate::settings::requests::UsersReq;
use crate::text::{same, trim, trimmed};
use vstd::prelude::*;

verus! {

/// What a caller without the authority is told.
pub const USER_MANAGEMENT: &'static str = "user management requires an admin";

/// The role that a request may assign: never the superuser's.
pub open spec fn assignable(name: Seq<char>) -> Option<Role> {
    if name == "admin"@ {
        Some(Role::Admin)
    } else if name == "user"@ {
        Some(Role::User)
    } else {
        None
    }
}

pub fn parse_role(s: &str) -> (r: Option<Role>)
    ensures
        r == assignable(s@),
        r != Some(Role::Superuser),
{
    if same(s, "admin") {
        Some(Role::Admin)
    } else if same(s, "user") {
        Some(Role::User)
    } else {
        None
    }
}

/// Leave to hash one password. Hashing is deliberately slow, so it is done
/// without the store lock, and only for a request that has come this far.
#[derive(Debug)]
pub struct HashTicket {
    password: String,
}

impl HashTicket {
    /// The password that may be hashed.
    pub closed spec fn secret(self) -> Seq<char> {
        self.password@
    }

    /// The password that may be hashed.
    pub fn password(&self) -> (r: &str)
        ensures
            r@ == self.secret(),
    {
        &self.password
    }
}

/// Issue a ticket.
pub(crate) fn hash_ticket(password: &str) -> (r: HashTicket)
    ensures
        r.secret() == password@,
{
    HashTicket { password: password.to_owned() }
}

/// The password a user request has hashed: the new user's, or the new one of
/// a reset.
pub open spec fn password_in(req: UsersReq) -> Option<Seq<char>> {
    match (req.add, req.reset_password) {
        (Some(a), None) => Some(a.password@),
        (None, Some(r)) => Some(r.new_password@),
        _ => None,
    }
}

/// Whether a user request may go on, and the password to hash if there is
/// one: authority comes first, then the password's length.
pub open spec fn users_plan(store: StoreV, username: Seq<char>, req: UsersReq) -> Result<
    Option<Seq<char>>,
    RefusedV,
> {
    match admin_bar(store, username, USER_MANAGEMENT@) {
        Some(e) => Err(e),
        None => match password_in(req) {
            Some(p) => if p.len() < MIN_PASSWORD_CHARS {
                Err(weak())
            } else {
                Ok(Some(p))
            },
            None => Ok(None),
        },
    }
}

/// The view of an optional ticket.
pub open spec fn ticket_view(t: Option<HashTicket>) -> Option<Seq<char>> {
    match t {
        Some(t) => Some(t.secret()),
        None => None,
    }
}

/// Whether a user request may go on, with leave to hash the password it
/// brings.
pub fn authorize_users(store: &StoredConfig, username: &str, req: &UsersReq) -> (r: Result<
    Option<HashTicket>,
    Refused,
>)
    ensures
        match r {
            Ok(t) => users_plan(store@, username@, *req) == Ok::<Option<Seq<char>>, RefusedV>(
                ticket_view(t),
            ),
            Err(e) => users_plan(store@, username@, *req) == Err::<Option<Seq<char>>, RefusedV>(
                e@,
            ),
        },
{
    match require_admin(store, username, USER_MANAGEMENT) {
        Ok(_) => {},
        Err(e) => return Err(e),
    }
    let password: &String = match (&req.add, &req.reset_password) {
        (Some(a), None) => &a.password,
        (None, Some(r)) => &r.new_password,
        _ => return Ok(None),
    };
    if too_short(password) {
        return Err(weak_password());
    }
    Ok(Some(hash_ticket(password)))
}

/// Being anyone but the user called `name`.
pub open spec fn other_than(name: Seq<char>) -> spec_fn(UserV) -> bool {
    |u: UserV| u.username != name
}

/// Being a NIM key of anyone but the user called `name`.
pub open spec fn nim_not_of(name: Seq<char>) -> spec_fn(NimKeyV) -> bool {
    |k: NimKeyV| k.owner != name
}

/// Being a client key of anyone but the user called `name`.
pub open spec fn client_not_of(name: Seq<char>) -> spec_fn(ClientKeyV) -> bool {
    |c: ClientKeyV| c.owner != name
}

/// The store without the user called `name` and all they own.
pub open spec fn without_user(store: StoreV, name: Seq<char>) -> StoreV {
    StoreV {
        users: store.users.filter(other_than(name)),
        nim_keys: store.nim_keys.filter(nim_not_of(name)),
        client_keys: store.client_keys.filter(client_not_of(name)),
        ..store
    }
}

/// A new user, without a locale of their own.
pub open spec fn new_user(name: Seq<char>, hash: Seq<char>, role: Role) -> UserV {
    UserV { username: trimmed(name), password_hash: hash, role, locale: None }
}

/// What a user request makes of the store, where `hash` is what the password
/// it brings was hashed to. The authority is looked up again, as it may have
/// been taken away while the hash was made, and so is the password's length.
pub open spec fn users_change(
    store: StoreV,
    username: Seq<char>,
    req: UsersReq,
    hash: Seq<char>,
) -> Result<StoreV, RefusedV> {
    match users_plan(store, username, req) {
        Err(e) => Err(e),
        Ok(_) => match (req.add, req.remove, req.reset_password, req.set_role) {
            (Some(add), None, None, None) => match assignable(add.role@) {
                None => Err(bad("role must be \"admin\" or \"user\""@)),
                Some(role) => Ok(
                    StoreV {
                        users: store.users.push(new_user(add.username@, hash, role)),
                        ..store
                    },
                ),
            },
            (None, Some(target), None, None) => match store.user(target@) {
                None => Err(bad("no such user"@)),
                Some(user) => if user.role == Role::Superuser {
                    Err(forbidden_for("the superuser can never be deleted"@))
                } else {
                    Ok(without_user(store, target@))
                },
            },
            (None, None, Some(reset), None) => match first_where(
                store.users,
                called(reset.username@),
            ) {
                None => Err(bad("no such user"@)),
                Some(i) => if store.users[i].role == Role::Superuser {
                    Err(
                        forbidden_for(
                            "the superuser's password can only be changed by the superuser (Account settings)"@,
                        ),
                    )
                } else {
                    Ok(
                        StoreV {
                            users: store.users.update(
                                i,
                                UserV { password_hash: hash, ..store.users[i] },
                            ),
                            ..store
                        },
                    )
                },
            },
            (None, None, None, Some(set)) => match assignable(set.role@) {
                None => Err(bad("role must be \"admin\" or \"user\""@)),
                Some(role) => match first_where(store.users, called(set.username@)) {
                    None => Err(bad("no such user"@)),
                    Some(i) => if store.users[i].role == Role::Superuser {
                        Err(forbidden_for("the superuser's role is immutable"@))
                    } else {
                        Ok(
                            StoreV {
                                users: store.users.update(i, UserV { role, ..store.users[i] }),
                                ..store
                            },
                        )
                    },
                },
            },
            _ => Err(bad("send exactly one of add / remove / reset_password / set_role"@)),
        },
    }
}

fn users_but(users: &Vec<User>, name: &str) -> (r: Vec<User>)
    ensures
        users_view(r@) == users_view(users@).filter(other_than(name@)),
{
    let ghost all = users_view(users@);
    let ghost p = other_than(name@);
    let mut out: Vec<User> = Vec::new();
    proof {
        lemma_filter_start(all, p);
    }
    let mut i: usize = 0;
    while i < users.len()
        invariant
            i <= users@.len(),
            all == users_view(users@),
            p == other_than(name@),
            users_view(out@) =~= all.take(i as int).filter(p),
        decreases users@.len() - i,
    {
        proof {
            lemma_filter_step(all, p, i as int);
        }
        if !same(&users[i].username, name) {
            out.push(users[i].clone());
        }
        i = i + 1;
    }
    assert(all.take(i as int) == all);
    out
}

fn nim_keys_but(keys: &Vec<NimKey>, name: &str) -> (r: Vec<NimKey>)
    ensures
        nim_keys_view(r@) == nim_keys_view(keys@).filter(nim_not_of(name@)),
{
    let ghost all = nim_keys_view(keys@);
    let ghost p = nim_not_of(name@);
    let mut out: Vec<NimKey> = Vec::new();
    proof {
        lemma_filter_start(all, p);
    }
    let mut i: usize = 0;
    while i < keys.len()
        invariant
            i <= keys@.len(),
            all == nim_keys_view(keys@),
            p == nim_not_of(name@),
            nim_keys_view(out@) =~= all.take(i as int).filter(p),
        decreases keys@.len() - i,
    {
        proof {
            lemma_filter_step(all, p, i as int);
        }
        if !same(&keys[i].owner, name) {
            out.push(keys[i].clone());
        }
        i = i + 1;
    }
    assert(all.take(i as int) == all);
    out
}

fn client_keys_but(keys: &Vec<ClientKey>, name: &str) -> (r: Vec<ClientKey>)
    ensures
        client_keys_view(r@) == client_keys_view(keys@).filter(client_not_of(name@)),
{
    let ghost all = client_keys_view(keys@);
    let ghost p = client_not_of(name@);
    let mut out: Vec<ClientKey> = Vec::new();
    proof {
        lemma_filter_start(all, p);
    }
    let mut i: usize = 0;
    while i < keys.len()
        invariant
            i <= keys@.len(),
            all == client_keys_view(keys@),
            p == client_not_of(name@),
            client_keys_view(out@) =~= all.take(i as int).filter(p),
        decreases keys@.len() - i,
    {
        proof {
            lemma_filter_step(all, p, i as int);
        }
        if !same(&keys[i].owner, name) {
            out.push(keys[i].clone());
        }
        i = i + 1;
    }
    assert(all.take(i as int) == all);
    out
}

/// The store a user request asks for; `hash` is what the password it brings
/// was hashed to, and is not looked at where it brings none.
pub fn users(store: &StoredConfig, username: &str, req: &UsersReq, hash: &str) -> (r: Result<
    StoredConfig,
    Refused,
>)
    ensures
        outcome(r) == users_change(store@, username@, *req, hash@),
{
    match authorize_users(store, username, req) {
        Ok(_) => {},
        Err(e) => return Err(e),
    }
    let mut cand = store.clone();
    let ghost before = cand@;
    match (&req.add, &req.remove, &req.reset_password, &req.set_role) {
        (Some(add), None, None, None) => {
            let role = match parse_role(&add.role) {
                Some(role) => role,
                None => return Err(bad_request("role must be \"admin\" or \"user\"")),
            };
            cand.users.push(
                User {
                    username: trim(&add.username).to_owned(),
                    password_hash: hash.to_owned(),
                    role,
                    locale: None,
                },
            );
            assert(cand@ =~= users_change(store@, username@, *req, hash@)->Ok_0);
        },
        (None, Some(target), None, None) => {
            match cand.user(target) {
                Some(user) => {
                    if user.role == Role::Superuser {
                        return Err(forbidden("the superuser can never be deleted"));
                    }
                },
                None => return Err(bad_request("no such user")),
            }
            cand.users = users_but(&cand.users, target);
            cand.upstream.nim_keys = nim_keys_but(&cand.upstream.nim_keys, target);
            cand.client_auth.keys = client_keys_but(&cand.client_auth.keys, target);
            assert(cand@ =~= users_change(store@, username@, *req, hash@)->Ok_0);
        },
        (None, None, Some(reset), None) => {
            let i = match find_user(&cand.users, &reset.username) {
                Some(i) => i,
                None => return Err(bad_request("no such user")),
            };
            assert(before.users[i as int] == cand.users@[i as int]@);
            if cand.users[i].role == Role::Superuser {
                return Err(
                    forbidden(
                        "the superuser's password can only be changed by the superuser (Account settings)",
                    ),
                );
            }
            let mut user = cand.users[i].clone();
            user.password_hash = hash.to_owned();
            cand.users.set(i, user);
            assert(cand@ =~= users_change(store@, username@, *req, hash@)->Ok_0);
        },
        (None, None, None, Some(set)) => {
            let role = match parse_role(&set.role) {
                Some(role) => role,
                None => return Err(bad_request("role must be \"admin\" or \"user\"")),
            };
            let i = match find_user(&cand.users, &set.username) {
                Some(i) => i,
                None => return Err(bad_request("no such user")),
            };
            assert(before.users[i as int] == cand.users@[i as int]@);
            if cand.users[i].role == Role::Superuser {
                return Err(forbidden("the superuser's role is immutable"));
            }
            let mut user = cand.users[i].clone();
            user.role = role;
            cand.users.set(i, user);
            assert(cand@ =~= users_change(store@, username@, *req, hash@)->Ok_0);
        },
        _ => return Err(
            bad_request("send exactly one of add / remove / reset_password / set_role"),
        ),
    }
    Ok(cand)
}

}
