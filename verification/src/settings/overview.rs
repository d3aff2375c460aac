//! The Settings page's data, filtered by role before it is printed: what a
//! caller may not see is never built.
use crate::api::{
    client_rows_view, nim_rows_view, user_rows_view, ClientKeyRow, ClientKeyRowV, ConfigResponse,
    ConfigV, HistorySettings, HistorySettingsV, NimKeyRow, NimKeyRowV, PoolSummary, Refused,
    RefusedV, ServerSettings, ServerSettingsV, UserRow, UserRowV,
};
use crate::config::{
    client_keys_view, nim_keys_view, ClientKey, ClientKeyV, NimKey, NimKeyV, StoreV, StoredConfig,
    User, UserV,
};
use crate::lists::{last_where, lemma_filter_start, lemma_filter_step};
use crate::settings::keys::{fingerprint, fingerprint_of, last4, tail4};
use crate::settings::refusals::{stale, stale_session};
use crate::text::{opt_str, same};
use vstd::prelude::*;

verus! {

/// The live state of one lane of the pool.
#[derive(Debug)]
pub struct LaneStat {
    pub key: String,
    pub in_window: usize,
    pub cooldown_ms: u64,
}

/// The view of a [`LaneStat`].
#[verifier::ext_equal]
pub struct LaneV {
    pub key: Seq<char>,
    pub in_window: usize,
    pub cooldown_ms: u64,
}

impl View for LaneStat {
    type V = LaneV;

    open spec fn view(&self) -> LaneV {
        LaneV { key: self.key@, in_window: self.in_window, cooldown_ms: self.cooldown_ms }
    }
}

/// The views of the lanes.
pub open spec fn lanes_view(lanes: Seq<LaneStat>) -> Seq<LaneV> {
    Seq::new(lanes.len(), |i: int| lanes[i]@)
}

/// The live state of the history file.
#[derive(Debug)]
pub struct HistoryStatus {
    pub available_from: Option<u64>,
    pub compaction_pending: bool,
    pub file_bytes: u64,
    pub persistence: String,
}

/// Being the lane of the given key.
pub open spec fn lane_for(key: Seq<char>) -> spec_fn(LaneV) -> bool {
    |l: LaneV| l.key == key
}

/// Being an enabled NIM key of the given owner.
pub open spec fn enabled_of(owner: Seq<char>) -> spec_fn(NimKeyV) -> bool {
    |k: NimKeyV| k.enabled && k.owner == owner
}

/// Being a NIM key the caller may see.
pub open spec fn nim_visible(admin: bool, username: Seq<char>) -> spec_fn(NimKeyV) -> bool {
    |k: NimKeyV| admin || k.owner == username
}

/// Being a client key the caller may see.
pub open spec fn client_visible(admin: bool, username: Seq<char>) -> spec_fn(ClientKeyV) -> bool {
    |c: ClientKeyV| admin || c.owner == username
}

/// Being a NIM key of the given owner.
pub open spec fn nim_of(owner: Seq<char>) -> spec_fn(NimKeyV) -> bool {
    |k: NimKeyV| k.owner == owner
}

/// Being a client key of the given owner.
pub open spec fn client_of(owner: Seq<char>) -> spec_fn(ClientKeyV) -> bool {
    |c: ClientKeyV| c.owner == owner
}

/// The padlocked key: the superuser's only enabled one, the pool's floor.
pub open spec fn guarded_key(store: StoreV) -> Option<Seq<char>> {
    let owner = match store.superuser() {
        Some(u) => u.username,
        None => Seq::empty(),
    };
    let enabled = store.nim_keys.filter(enabled_of(owner));
    if enabled.len() == 1 {
        Some(enabled[0].key)
    } else {
        None
    }
}

/// The row of a NIM key.
pub open spec fn nim_row(k: NimKeyV, lanes: Seq<LaneV>, guarded: Option<Seq<char>>) -> NimKeyRowV {
    let lane = last_where(lanes, lane_for(k.key));
    NimKeyRowV {
        cooldown_ms: match lane {
            Some(i) => Some(lanes[i].cooldown_ms),
            None => None,
        },
        enabled: k.enabled,
        fingerprint: fingerprint_of(k.key),
        guarded: guarded == Some(k.key),
        in_window: match lane {
            Some(i) => Some(lanes[i].in_window),
            None => None,
        },
        lane: match lane {
            Some(i) => Some(i as usize),
            None => None,
        },
        last4: tail4(k.key),
        owner: k.owner,
        rpm: k.rpm,
    }
}

/// The rows of NIM keys.
pub open spec fn nim_rows(keys: Seq<NimKeyV>, lanes: Seq<LaneV>, guarded: Option<Seq<char>>) -> Seq<
    NimKeyRowV,
> {
    Seq::new(keys.len(), |i: int| nim_row(keys[i], lanes, guarded))
}

/// The row of a client key.
pub open spec fn client_row(c: ClientKeyV) -> ClientKeyRowV {
    ClientKeyRowV { last4: c.last4, name: c.name, owner: c.owner }
}

/// The rows of client keys.
pub open spec fn client_rows(keys: Seq<ClientKeyV>) -> Seq<ClientKeyRowV> {
    Seq::new(keys.len(), |i: int| client_row(keys[i]))
}

/// The row of a user.
pub open spec fn user_row(store: StoreV, u: UserV) -> UserRowV {
    UserRowV {
        client_keys: store.client_keys.filter(client_of(u.username)).len(),
        nim_keys: store.nim_keys.filter(nim_of(u.username)).len(),
        role: u.role,
        username: u.username,
    }
}

/// The rows of all users.
pub open spec fn user_rows(store: StoreV) -> Seq<UserRowV> {
    Seq::new(store.users.len(), |i: int| user_row(store, store.users[i]))
}

/// The server section.
pub open spec fn server_section(store: StoreV, history: HistoryStatus) -> ServerSettingsV {
    ServerSettingsV {
        base_url: store.base_url,
        dashboard: store.dashboard,
        default_locale: store.default_locale,
        governor: store.governor,
        history: HistorySettingsV {
            available_from: history.available_from,
            compaction_pending: history.compaction_pending,
            days: store.history_days,
            file_bytes: history.file_bytes,
            persistence: history.persistence@,
        },
        limits: store.limits,
        web_search: store.web_search,
    }
}

/// What the Settings page shows the user called `username`.
pub open spec fn overview_of(
    store: StoreV,
    username: Seq<char>,
    lanes: Seq<LaneV>,
    pool: PoolSummary,
    history: HistoryStatus,
) -> Result<ConfigV, RefusedV> {
    match store.user(username) {
        None => Err(stale()),
        Some(user) => {
            let admin = user.role.admin();
            Ok(
                ConfigV {
                    client_keys: client_rows(
                        store.client_keys.filter(client_visible(admin, username)),
                    ),
                    locale: user.locale,
                    mode: store.mode,
                    nim_keys: nim_rows(
                        store.nim_keys.filter(nim_visible(admin, username)),
                        lanes,
                        guarded_key(store),
                    ),
                    pool,
                    role: user.role,
                    server: if admin {
                        Some(server_section(store, history))
                    } else {
                        None
                    },
                    username,
                    users: if admin {
                        Some(user_rows(store))
                    } else {
                        None
                    },
                },
            )
        },
    }
}

fn lane_of_key(lanes: &Vec<LaneStat>, key: &str) -> (r: Option<usize>)
    ensures
        match r {
            Some(i) => last_where(lanes_view(lanes@), lane_for(key@)) == Some(i as int) && i
                < lanes@.len(),
            None => last_where(lanes_view(lanes@), lane_for(key@)) is None,
        },
{
    let ghost all = lanes_view(lanes@);
    let ghost p = lane_for(key@);
    let mut n: usize = lanes.len();
    assert(all.take(n as int) == all);
    while n > 0
        invariant
            n <= lanes@.len(),
            all == lanes_view(lanes@),
            p == lane_for(key@),
            last_where(all, p) == last_where(all.take(n as int), p),
        decreases n,
    {
        assert(all.take(n as int).drop_last() == all.take(n - 1));
        assert(all.take(n as int).last() == lanes@[n - 1]@);
        if same(&lanes[n - 1].key, key) {
            return Some(n - 1);
        }
        n = n - 1;
    }
    None
}

fn guarded_in(store: &StoredConfig) -> (r: Option<&str>)
    ensures
        opt_str(r) == guarded_key(store@),
{
    let owner: &str = match store.superuser() {
        Some(u) => &u.username,
        None => {
            proof {
                reveal_strlit("");
                assert(""@ =~= Seq::<char>::empty());
            }
            ""
        },
    };
    let keys = &store.upstream.nim_keys;
    let ghost all = nim_keys_view(keys@);
    let ghost p = enabled_of(owner@);
    proof {
        lemma_filter_start(all, p);
    }
    let mut found: usize = 0;
    let mut at: usize = 0;
    let mut i: usize = 0;
    while i < keys.len()
        invariant
            i <= keys@.len(),
            found <= i,
            all == nim_keys_view(keys@),
            p == enabled_of(owner@),
            found == all.take(i as int).filter(p).len(),
            found > 0 ==> at < keys@.len() && all[at as int] == all.take(i as int).filter(p).last(),
        decreases keys@.len() - i,
    {
        proof {
            lemma_filter_step(all, p, i as int);
        }
        if keys[i].enabled && same(&keys[i].owner, owner) {
            found = found + 1;
            at = i;
        }
        i = i + 1;
    }
    assert(all.take(i as int) == all);
    if found == 1 {
        assert(all[at as int].key == keys@[at as int].key@);
        Some(&keys[at].key)
    } else {
        None
    }
}

fn nim_rows_of(
    keys: &Vec<NimKey>,
    admin: bool,
    username: &str,
    lanes: &Vec<LaneStat>,
    guarded: Option<&str>,
) -> (r: Vec<NimKeyRow>)
    ensures
        nim_rows_view(r@) == nim_rows(
            nim_keys_view(keys@).filter(nim_visible(admin, username@)),
            lanes_view(lanes@),
            opt_str(guarded),
        ),
{
    let ghost all = nim_keys_view(keys@);
    let ghost p = nim_visible(admin, username@);
    proof {
        lemma_filter_start(all, p);
    }
    let mut out: Vec<NimKeyRow> = Vec::new();
    let mut i: usize = 0;
    while i < keys.len()
        invariant
            i <= keys@.len(),
            all == nim_keys_view(keys@),
            p == nim_visible(admin, username@),
            nim_rows_view(out@) =~= nim_rows(
                all.take(i as int).filter(p),
                lanes_view(lanes@),
                opt_str(guarded),
            ),
        decreases keys@.len() - i,
    {
        proof {
            lemma_filter_step(all, p, i as int);
        }
        if admin || same(&keys[i].owner, username) {
            let lane = lane_of_key(lanes, &keys[i].key);
            let is_guarded = match guarded {
                Some(g) => same(g, &keys[i].key),
                None => false,
            };
            let row = NimKeyRow {
                cooldown_ms: match lane {
                    Some(n) => Some(lanes[n].cooldown_ms),
                    None => None,
                },
                enabled: keys[i].enabled,
                fingerprint: fingerprint(&keys[i].key),
                guarded: is_guarded,
                in_window: match lane {
                    Some(n) => Some(lanes[n].in_window),
                    None => None,
                },
                lane,
                last4: last4(&keys[i].key),
                owner: keys[i].owner.clone(),
                rpm: keys[i].rpm,
            };
            assert(row@ =~= nim_row(all[i as int], lanes_view(lanes@), opt_str(guarded)));
            let ghost kept = all.take(i as int).filter(p);
            let ghost had = nim_rows_view(out@);
            out.push(row);
            assert(nim_rows_view(out@) =~= had.push(row@));
            assert(nim_rows(kept.push(all[i as int]), lanes_view(lanes@), opt_str(guarded))
                =~= had.push(row@));
        }
        i = i + 1;
    }
    assert(all.take(i as int) == all);
    out
}

fn client_rows_of(keys: &Vec<ClientKey>, admin: bool, username: &str) -> (r: Vec<ClientKeyRow>)
    ensures
        client_rows_view(r@) == client_rows(
            client_keys_view(keys@).filter(client_visible(admin, username@)),
        ),
{
    let ghost all = client_keys_view(keys@);
    let ghost p = client_visible(admin, username@);
    proof {
        lemma_filter_start(all, p);
    }
    let mut out: Vec<ClientKeyRow> = Vec::new();
    let mut i: usize = 0;
    while i < keys.len()
        invariant
            i <= keys@.len(),
            all == client_keys_view(keys@),
            p == client_visible(admin, username@),
            client_rows_view(out@) =~= client_rows(all.take(i as int).filter(p)),
        decreases keys@.len() - i,
    {
        proof {
            lemma_filter_step(all, p, i as int);
        }
        if admin || same(&keys[i].owner, username) {
            let row = ClientKeyRow {
                last4: keys[i].last4.clone(),
                name: keys[i].name.clone(),
                owner: keys[i].owner.clone(),
            };
            assert(row@ =~= client_row(all[i as int]));
            let ghost kept = all.take(i as int).filter(p);
            let ghost had = client_rows_view(out@);
            out.push(row);
            assert(client_rows_view(out@) =~= had.push(row@));
            assert(client_rows(kept.push(all[i as int])) =~= had.push(row@));
        }
        i = i + 1;
    }
    assert(all.take(i as int) == all);
    out
}

fn count_nim(keys: &Vec<NimKey>, owner: &str) -> (r: usize)
    ensures
        r == nim_keys_view(keys@).filter(nim_of(owner@)).len(),
{
    let ghost all = nim_keys_view(keys@);
    let ghost p = nim_of(owner@);
    proof {
        lemma_filter_start(all, p);
    }
    let mut n: usize = 0;
    let mut i: usize = 0;
    while i < keys.len()
        invariant
            i <= keys@.len(),
            n <= i,
            all == nim_keys_view(keys@),
            p == nim_of(owner@),
            n == all.take(i as int).filter(p).len(),
        decreases keys@.len() - i,
    {
        proof {
            lemma_filter_step(all, p, i as int);
        }
        if same(&keys[i].owner, owner) {
            n = n + 1;
        }
        i = i + 1;
    }
    assert(all.take(i as int) == all);
    n
}

fn count_clients(keys: &Vec<ClientKey>, owner: &str) -> (r: usize)
    ensures
        r == client_keys_view(keys@).filter(client_of(owner@)).len(),
{
    let ghost all = client_keys_view(keys@);
    let ghost p = client_of(owner@);
    proof {
        lemma_filter_start(all, p);
    }
    let mut n: usize = 0;
    let mut i: usize = 0;
    while i < keys.len()
        invariant
            i <= keys@.len(),
            n <= i,
            all == client_keys_view(keys@),
            p == client_of(owner@),
            n == all.take(i as int).filter(p).len(),
        decreases keys@.len() - i,
    {
        proof {
            lemma_filter_step(all, p, i as int);
        }
        if same(&keys[i].owner, owner) {
            n = n + 1;
        }
        i = i + 1;
    }
    assert(all.take(i as int) == all);
    n
}

fn user_rows_of(store: &StoredConfig) -> (r: Vec<UserRow>)
    ensures
        user_rows_view(r@) == user_rows(store@),
{
    let mut out: Vec<UserRow> = Vec::new();
    let mut i: usize = 0;
    while i < store.users.len()
        invariant
            i <= store.users@.len(),
            user_rows_view(out@) =~= user_rows(store@).take(i as int),
        decreases store.users@.len() - i,
    {
        let u = &store.users[i];
        let row = UserRow {
            client_keys: count_clients(&store.client_auth.keys, &u.username),
            nim_keys: count_nim(&store.upstream.nim_keys, &u.username),
            role: u.role,
            username: u.username.clone(),
        };
        assert(row@ =~= user_row(store@, store@.users[i as int]));
        let ghost had = user_rows_view(out@);
        out.push(row);
        assert(user_rows_view(out@) =~= had.push(row@));
        assert(user_rows(store@).take(i + 1) =~= user_rows(store@).take(i as int).push(row@));
        i = i + 1;
    }
    assert(user_rows(store@).take(i as int) =~= user_rows(store@));
    out
}

fn server_section_of(store: &StoredConfig, history: &HistoryStatus) -> (r: ServerSettings)
    ensures
        r@ == server_section(store@, *history),
{
    ServerSettings {
        base_url: store.upstream.base_url.clone(),
        dashboard: store.dashboard,
        default_locale: store.default_locale.clone(),
        governor: store.governor.clone(),
        history: HistorySettings {
            available_from: history.available_from,
            compaction_pending: history.compaction_pending,
            days: store.history.days,
            file_bytes: history.file_bytes,
            persistence: history.persistence.clone(),
        },
        limits: store.limits,
        web_search: store.web_search.clone(),
    }
}

/// What the Settings page shows a caller. `lanes` is the live state of the
/// pool's lanes, `pool` its aggregate, `history` the state of the history
/// file.
pub fn api_config(
    store: &StoredConfig,
    username: &str,
    lanes: &Vec<LaneStat>,
    pool: PoolSummary,
    history: &HistoryStatus,
) -> (r: Result<ConfigResponse, Refused>)
    ensures
        match r {
            Ok(c) => overview_of(store@, username@, lanes_view(lanes@), pool, *history) == Ok::<
                ConfigV,
                RefusedV,
            >(c@),
            Err(e) => overview_of(store@, username@, lanes_view(lanes@), pool, *history) == Err::<
                ConfigV,
                RefusedV,
            >(e@),
        },
{
    let user: &User = match store.user(username) {
        Some(user) => user,
        None => return Err(stale_session()),
    };
    let admin = user.role.is_admin();
    let server = if admin {
        Some(server_section_of(store, history))
    } else {
        None
    };
    let users = if admin {
        Some(user_rows_of(store))
    } else {
        None
    };
    Ok(
        ConfigResponse {
            client_keys: client_rows_of(&store.client_auth.keys, admin, username),
            locale: match &user.locale {
                Some(l) => Some(l.clone()),
                None => None,
            },
            mode: store.client_auth.mode,
            nim_keys: nim_rows_of(
                &store.upstream.nim_keys,
                admin,
                username,
                lanes,
                guarded_in(store),
            ),
            pool,
            role: user.role,
            server,
            username: username.to_owned(),
            users,
        },
    )
}

}
