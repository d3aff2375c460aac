//! What the settings page shows: the store as it stands, row by row.
use crate::api::PoolSummary;
use crate::config::{called, supreme, ClientKeyV, NimKeyV, Role, StoreV, UserV};
use crate::digest::sha256_hex_of;
use crate::lists::{last_where, lemma_first_where};
use crate::settings::change_laws::is_user;
use crate::settings::overview::{
    client_of, client_visible, enabled_of, guarded_key, lane_for, nim_of, nim_row, nim_visible,
    overview_of, user_row, HistoryStatus, LaneV,
};
use vstd::prelude::*;

verus! {

/// How many items a property holds of.
pub open spec fn number_of<A>(s: Seq<A>, p: spec_fn(A) -> bool) -> nat
    decreases s.len(),
{
    if s.len() == 0 {
        0
    } else if p(s.last()) {
        number_of(s.drop_last(), p) + 1
    } else {
        number_of(s.drop_last(), p)
    }
}

proof fn lemma_filter_len<A>(s: Seq<A>, p: spec_fn(A) -> bool)
    ensures
        s.filter(p).len() == number_of(s, p),
    decreases s.len(),
{
    reveal(Seq::filter);
    if s.len() > 0 {
        lemma_filter_len(s.drop_last(), p);
    }
}

proof fn lemma_filter_all<A>(s: Seq<A>, p: spec_fn(A) -> bool)
    requires
        forall|i: int| 0 <= i < s.len() ==> p(#[trigger] s[i]),
    ensures
        s.filter(p) == s,
    decreases s.len(),
{
    reveal(Seq::filter);
    if s.len() > 0 {
        let t = s.drop_last();
        assert forall|i: int| 0 <= i < t.len() implies p(#[trigger] t[i]) by {
            assert(t[i] == s[i]);
        }
        lemma_filter_all(t, p);
        assert(p(s[s.len() - 1]));
        assert(t.push(s.last()) =~= s);
    }
}

proof fn lemma_filter_one<A>(s: Seq<A>, p: spec_fn(A) -> bool)
    ensures
        forall|x: A| #[trigger] s.filter(p).contains(x) ==> s.contains(x) && p(x),
{
    assert forall|x: A| #[trigger] s.filter(p).contains(x) implies s.contains(x) && p(x) by {
        crate::lists::lemma_filter_contains(s, p, x);
    }
}

/// Whether the lane at `l` is the last of the given key.
pub open spec fn is_lane(lanes: Seq<LaneV>, key: Seq<char>, l: int) -> bool {
    &&& 0 <= l < lanes.len()
    &&& lanes[l].key == key
    &&& forall|k: int| l < k < lanes.len() ==> (#[trigger] lanes[k]).key != key
}

proof fn lemma_last_where(lanes: Seq<LaneV>, key: Seq<char>)
    ensures
        match last_where(lanes, lane_for(key)) {
            Some(l) => is_lane(lanes, key, l),
            None => forall|k: int| 0 <= k < lanes.len() ==> (#[trigger] lanes[k]).key != key,
        },
    decreases lanes.len(),
{
    if lanes.len() > 0 {
        let head = lanes.drop_last();
        lemma_last_where(head, key);
        let n = lanes.len() - 1;
        assert(lanes[n] == lanes.last());
        let p = lane_for(key);
        if !p(lanes.last()) {
            assert forall|k: int| 0 <= k < n implies head[k] == #[trigger] lanes[k] by {}
        }
    }
}

/// An administrator sees everything, row by row and in order: every NIM key
/// by its fingerprint and its last four characters, with its owner, switch
/// and rate, and its lane where it has one; every client key by its name and
/// its last four; and every user with the number of their keys.
pub proof fn law_administrators_see_everything(
    store: StoreV,
    username: Seq<char>,
    u: int,
    lanes: Seq<LaneV>,
    pool: PoolSummary,
    history: HistoryStatus,
)
    requires
        is_user(store.users, username, u),
        store.users[u].role != Role::User,
        lanes.len() <= usize::MAX,
    ensures
        ({
            let r = overview_of(store, username, lanes, pool, history);
            let v = r->Ok_0;
            &&& r is Ok
            &&& v.username == username && v.role == store.users[u].role && v.locale
                == store.users[u].locale && v.mode == store.mode && v.pool == pool
            &&& v.nim_keys.len() == store.nim_keys.len()
            &&& forall|i: int|
                0 <= i < store.nim_keys.len() ==> {
                    let k = store.nim_keys[i];
                    let row = #[trigger] v.nim_keys[i];
                    &&& row.enabled == k.enabled && row.owner == k.owner && row.rpm == k.rpm
                    &&& row.fingerprint == sha256_hex_of(k.key).take(8)
                    &&& row.last4.is_suffix_of(k.key) && row.last4.len() <= 4
                    &&& row.lane is Some ==> is_lane(lanes, k.key, row.lane->0 as int)
                        && row.in_window == Some(lanes[row.lane->0 as int].in_window)
                        && row.cooldown_ms == Some(lanes[row.lane->0 as int].cooldown_ms)
                    &&& row.lane is None ==> row.in_window is None && row.cooldown_ms is None
                        && forall|l: int|
                        0 <= l < lanes.len() ==> (#[trigger] lanes[l]).key != k.key
                }
            &&& v.client_keys.len() == store.client_keys.len()
            &&& forall|i: int|
                0 <= i < store.client_keys.len() ==> {
                    let row = #[trigger] v.client_keys[i];
                    row.name == store.client_keys[i].name && row.owner
                        == store.client_keys[i].owner && row.last4 == store.client_keys[i].last4
                }
            &&& v.users is Some && v.users->0.len() == store.users.len()
            &&& forall|i: int|
                0 <= i < store.users.len() ==> {
                    let user = store.users[i];
                    let row = #[trigger] v.users->0[i];
                    &&& row.username == user.username && row.role == user.role
                    &&& row.nim_keys == number_of(
                        store.nim_keys,
                        |k: NimKeyV| k.owner == user.username,
                    )
                    &&& row.client_keys == number_of(
                        store.client_keys,
                        |c: ClientKeyV| c.owner == user.username,
                    )
                }
            &&& v.server is Some
            &&& v.server->0.base_url == store.base_url && v.server->0.limits == store.limits
                && v.server->0.dashboard == store.dashboard && v.server->0.governor
                == store.governor && v.server->0.web_search == store.web_search
                && v.server->0.default_locale == store.default_locale
            &&& v.server->0.history.days == store.history_days && v.server->0.history.file_bytes
                == history.file_bytes && v.server->0.history.available_from
                == history.available_from && v.server->0.history.compaction_pending
                == history.compaction_pending && v.server->0.history.persistence
                == history.persistence@
        }),
{
    lemma_user_there(store, username, u);
    lemma_filter_all(store.nim_keys, nim_visible(true, username));
    lemma_filter_all(store.client_keys, client_visible(true, username));
    let v = overview_of(store, username, lanes, pool, history)->Ok_0;
    let guarded = guarded_key(store);
    assert forall|i: int| 0 <= i < store.nim_keys.len() implies ({
        let k = store.nim_keys[i];
        let row = #[trigger] v.nim_keys[i];
        &&& row.enabled == k.enabled && row.owner == k.owner && row.rpm == k.rpm
        &&& row.fingerprint == sha256_hex_of(k.key).take(8)
        &&& row.last4.is_suffix_of(k.key) && row.last4.len() <= 4
        &&& row.lane is Some ==> is_lane(lanes, k.key, row.lane->0 as int) && row.in_window
            == Some(lanes[row.lane->0 as int].in_window) && row.cooldown_ms == Some(
            lanes[row.lane->0 as int].cooldown_ms,
        )
        &&& row.lane is None ==> row.in_window is None && row.cooldown_ms is None && forall|l: int|
            0 <= l < lanes.len() ==> (#[trigger] lanes[l]).key != k.key
    }) by {
        let k = store.nim_keys[i];
        assert(v.nim_keys[i] == nim_row(k, lanes, guarded));
        lemma_last_where(lanes, k.key);
        assert(k.key.skip(0) =~= k.key);
    }
    assert forall|i: int| 0 <= i < store.users.len() implies ({
        let user = store.users[i];
        let row = #[trigger] v.users->0[i];
        &&& row.username == user.username && row.role == user.role
        &&& row.nim_keys == number_of(store.nim_keys, |k: NimKeyV| k.owner == user.username)
        &&& row.client_keys == number_of(
            store.client_keys,
            |c: ClientKeyV| c.owner == user.username,
        )
    }) by {
        let user = store.users[i];
        assert(v.users->0[i] == user_row(store, user));
        lemma_filter_len(store.nim_keys, nim_of(user.username));
        lemma_filter_len(store.client_keys, client_of(user.username));
        assert(nim_of(user.username) =~= (|k: NimKeyV| k.owner == user.username));
        assert(client_of(user.username) =~= (|c: ClientKeyV| c.owner == user.username));
    }
}

proof fn lemma_user_there(store: StoreV, username: Seq<char>, u: int)
    requires
        is_user(store.users, username, u),
    ensures
        store.user(username) == Some(store.users[u]),
{
    lemma_first_where(store.users, called(username));
    let p = called(username);
    assert(p(store.users[u]));
}

/// Whether the user at `s` is the first superuser.
pub open spec fn is_superuser(users: Seq<UserV>, s: int) -> bool {
    &&& 0 <= s < users.len()
    &&& users[s].role == Role::Superuser
    &&& forall|k: int| 0 <= k < s ==> (#[trigger] users[k]).role != Role::Superuser
}

/// A key is guarded exactly while it is the superuser's only enabled one.
pub proof fn law_the_last_key_is_guarded(store: StoreV, s: int)
    requires
        is_superuser(store.users, s),
    ensures
        ({
            let owner = store.users[s].username;
            let own = |k: NimKeyV| k.enabled && k.owner == owner;
            &&& guarded_key(store) is Some <==> number_of(store.nim_keys, own) == 1
            &&& guarded_key(store) is Some ==> exists|i: int|
                0 <= i < store.nim_keys.len() && (#[trigger] store.nim_keys[i]).enabled
                    && store.nim_keys[i].owner == owner && store.nim_keys[i].key == guarded_key(
                    store,
                )->0
        }),
{
    lemma_first_where(store.users, supreme());
    let p = supreme();
    assert(p(store.users[s]));
    assert(store.superuser() == Some(store.users[s]));
    let owner = store.users[s].username;
    let own = |k: NimKeyV| k.enabled && k.owner == owner;
    assert(enabled_of(owner) =~= own);
    lemma_filter_len(store.nim_keys, enabled_of(owner));
    lemma_filter_one(store.nim_keys, enabled_of(owner));
    if guarded_key(store) is Some {
        let found = store.nim_keys.filter(enabled_of(owner));
        assert(found.contains(found[0]));
        assert(store.nim_keys.contains(found[0]));
        let i = store.nim_keys.index_of(found[0]);
        assert(store.nim_keys[i].key == guarded_key(store)->0);
    }
}

}
