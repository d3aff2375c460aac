//! The configuration store: the one document every setting lives in.
use crate::json::{empty_object, FiniteFloat, Json, JsonV};
use crate::lists::{first_where, lemma_first_found, lemma_first_step};
use crate::text::{opt_text, same};
use vstd::prelude::*;

verus! {

/// What a dashboard user may do.
#[derive(Clone, Copy, Debug, PartialEq, Eq, Structural)]
pub enum Role {
    Superuser,
    Admin,
    User,
}

impl Role {
    /// Whether the role carries the administrator's authority.
    pub open spec fn admin(self) -> bool {
        self != Role::User
    }

    /// The role's name on the wire.
    pub open spec fn wire(self) -> Seq<char> {
        match self {
            Role::Superuser => "superuser"@,
            Role::Admin => "admin"@,
            Role::User => "user"@,
        }
    }

    pub fn is_admin(self) -> (r: bool)
        ensures
            r == self.admin(),
    {
        match self {
            Role::Superuser | Role::Admin => true,
            Role::User => false,
        }
    }

    pub fn name(self) -> (r: &'static str)
        ensures
            r@ == self.wire(),
    {
        match self {
            Role::Superuser => "superuser",
            Role::Admin => "admin",
            Role::User => "user",
        }
    }
}

/// Whether `/v1` asks for a client key.
#[derive(Clone, Copy, Debug, PartialEq, Eq, Structural)]
pub enum Mode {
    Open,
    Keyed,
}

impl Mode {
    /// The mode's name on the wire.
    pub open spec fn wire(self) -> Seq<char> {
        match self {
            Mode::Open => "open"@,
            Mode::Keyed => "keyed"@,
        }
    }

    pub fn name(self) -> (r: &'static str)
        ensures
            r@ == self.wire(),
    {
        match self {
            Mode::Open => "open",
            Mode::Keyed => "keyed",
        }
    }
}

/// How a search provider answers.
#[derive(Clone, Copy, Debug, PartialEq, Eq, Structural)]
pub enum SearchFormat {
    Rss,
    Json,
}

impl SearchFormat {
    /// The format's name on the wire.
    pub open spec fn wire(self) -> Seq<char> {
        match self {
            SearchFormat::Rss => "rss"@,
            SearchFormat::Json => "json"@,
        }
    }

    pub fn name(self) -> (r: &'static str)
        ensures
            r@ == self.wire(),
    {
        match self {
            SearchFormat::Rss => "rss",
            SearchFormat::Json => "json",
        }
    }
}

/// A dashboard user.
#[derive(Debug)]
pub struct User {
    pub username: String,
    pub password_hash: String,
    pub role: Role,
    /// The user's own presentation locale; the server default where absent.
    pub locale: Option<String>,
}

#[verifier::ext_equal]
pub struct UserV {
    pub username: Seq<char>,
    pub password_hash: Seq<char>,
    pub role: Role,
    pub locale: Option<Seq<char>>,
}

impl View for User {
    type V = UserV;

    open spec fn view(&self) -> UserV {
        UserV {
            username: self.username@,
            password_hash: self.password_hash@,
            role: self.role,
            locale: opt_text(self.locale),
        }
    }
}

impl Clone for User {
    fn clone(&self) -> (r: Self)
        ensures
            r@ == self@,
    {
        User {
            username: self.username.clone(),
            password_hash: self.password_hash.clone(),
            role: self.role,
            locale: match &self.locale {
                Some(l) => Some(l.clone()),
                None => None,
            },
        }
    }
}

/// A stored upstream key: one lane of the pool while it is enabled.
#[derive(Debug)]
pub struct NimKey {
    pub key: String,
    pub owner: String,
    pub enabled: bool,
    pub rpm: usize,
}

#[verifier::ext_equal]
pub struct NimKeyV {
    pub key: Seq<char>,
    pub owner: Seq<char>,
    pub enabled: bool,
    pub rpm: usize,
}

impl View for NimKey {
    type V = NimKeyV;

    open spec fn view(&self) -> NimKeyV {
        NimKeyV { key: self.key@, owner: self.owner@, enabled: self.enabled, rpm: self.rpm }
    }
}

impl Clone for NimKey {
    fn clone(&self) -> (r: Self)
        ensures
            r@ == self@,
    {
        NimKey {
            key: self.key.clone(),
            owner: self.owner.clone(),
            enabled: self.enabled,
            rpm: self.rpm,
        }
    }
}

/// A stored client key. Only the secret's digest and its last four
/// characters are kept.
#[derive(Debug)]
pub struct ClientKey {
    pub name: String,
    pub secret_sha256: String,
    pub last4: String,
    pub owner: String,
}

#[verifier::ext_equal]
pub struct ClientKeyV {
    pub name: Seq<char>,
    pub secret_sha256: Seq<char>,
    pub last4: Seq<char>,
    pub owner: Seq<char>,
}

impl View for ClientKey {
    type V = ClientKeyV;

    open spec fn view(&self) -> ClientKeyV {
        ClientKeyV {
            name: self.name@,
            secret_sha256: self.secret_sha256@,
            last4: self.last4@,
            owner: self.owner@,
        }
    }
}

impl Clone for ClientKey {
    fn clone(&self) -> (r: Self)
        ensures
            r@ == self@,
    {
        ClientKey {
            name: self.name.clone(),
            secret_sha256: self.secret_sha256.clone(),
            last4: self.last4.clone(),
            owner: self.owner.clone(),
        }
    }
}

/// The views of a list of users.
pub open spec fn users_view(users: Seq<User>) -> Seq<UserV> {
    Seq::new(users.len(), |i: int| users[i]@)
}

/// The views of a list of upstream keys.
pub open spec fn nim_keys_view(keys: Seq<NimKey>) -> Seq<NimKeyV> {
    Seq::new(keys.len(), |i: int| keys[i]@)
}

/// The views of a list of client keys.
pub open spec fn client_keys_view(keys: Seq<ClientKey>) -> Seq<ClientKeyV> {
    Seq::new(keys.len(), |i: int| keys[i]@)
}

/// Patience, timeouts and the in-flight cap.
#[derive(Clone, Copy, Debug, PartialEq, Eq, Structural)]
pub struct Limits {
    pub heartbeat_secs: u64,
    pub max_inflight: usize,
    pub max_wait_secs: u64,
    pub models_ttl_secs: u64,
    pub request_timeout_secs: u64,
    pub stream_idle_secs: u64,
    pub strict_passthrough: bool,
}

/// What the dashboard shows by default.
#[derive(Clone, Copy, Debug)]
pub struct DashboardCfg {
    pub default_window_days: u64,
    pub slo_target_percent: FiniteFloat,
}

/// The view of a [`DashboardCfg`]: the target is its binary64 pattern.
pub struct DashboardV {
    pub default_window_days: u64,
    pub slo_target_percent: u64,
}

impl View for DashboardCfg {
    type V = DashboardV;

    open spec fn view(&self) -> DashboardV {
        DashboardV {
            default_window_days: self.default_window_days,
            slo_target_percent: self.slo_target_percent.pattern(),
        }
    }
}

/// The caps operators pinned, by model.
#[derive(Debug)]
pub struct Overrides {
    entries: Vec<(String, usize)>,
}

/// What a list of pins says: the last pin of a model counts.
pub open spec fn pins(entries: Seq<(String, usize)>) -> Map<Seq<char>, usize>
    decreases entries.len(),
{
    if entries.len() == 0 {
        Map::empty()
    } else {
        pins(entries.drop_last()).insert(entries.last().0@, entries.last().1)
    }
}

proof fn lemma_pins_push(entries: Seq<(String, usize)>, e: (String, usize))
    ensures
        pins(entries.push(e)) == pins(entries).insert(e.0@, e.1),
{
    assert(entries.push(e).drop_last() == entries);
}

/// The wire shape of a set of pins: an object from model to cap.
pub open spec fn pins_json(m: Map<Seq<char>, usize>) -> JsonV {
    JsonV::Object(m.map_values(|cap: usize| JsonV::Int(cap as int)))
}

impl View for Overrides {
    type V = Map<Seq<char>, usize>;

    closed spec fn view(&self) -> Map<Seq<char>, usize> {
        pins(self.entries@)
    }
}

impl Overrides {
    /// No pins.
    pub fn new() -> (r: Overrides)
        ensures
            r@ == Map::<Seq<char>, usize>::empty(),
    {
        Overrides { entries: Vec::new() }
    }

    /// The cap `model` is pinned to.
    pub fn get(&self, model: &str) -> (r: Option<usize>)
        ensures
            r == if self@.contains_key(model@) {
                Some(self@[model@])
            } else {
                None
            },
    {
        let ghost all = self.entries@;
        let mut n: usize = self.entries.len();
        assert(all.take(n as int) == all);
        while n > 0
            invariant
                n <= all.len(),
                all == self.entries@,
                pins(all).contains_key(model@) == pins(all.take(n as int)).contains_key(model@),
                pins(all).contains_key(model@) ==> pins(all)[model@] == pins(
                    all.take(n as int),
                )[model@],
            decreases n,
        {
            assert(all.take(n as int).drop_last() == all.take(n - 1));
            assert(all.take(n as int).last() == all[n - 1]);
            if same(&self.entries[n - 1].0, model) {
                return Some(self.entries[n - 1].1);
            }
            n = n - 1;
        }
        None
    }

    /// Drop the pin of `model`, if there is one.
    pub fn remove(&mut self, model: &str)
        ensures
            final(self)@ == old(self)@.remove(model@),
    {
        let mut kept: Vec<(String, usize)> = Vec::new();
        let mut i: usize = 0;
        while i < self.entries.len()
            invariant
                i <= self.entries@.len(),
                pins(kept@) == pins(self.entries@.take(i as int)).remove(model@),
            decreases self.entries@.len() - i,
        {
            let ghost all = self.entries@;
            proof {
                assert(all.take(i + 1) == all.take(i as int).push(all[i as int]));
                lemma_pins_push(all.take(i as int), all[i as int]);
            }
            if !same(&self.entries[i].0, model) {
                let e = (self.entries[i].0.clone(), self.entries[i].1);
                proof {
                    lemma_pins_push(kept@, e);
                }
                kept.push(e);
                assert(pins(kept@) =~= pins(all.take(i + 1)).remove(model@));
            } else {
                assert(pins(kept@) =~= pins(all.take(i + 1)).remove(model@));
            }
            i = i + 1;
        }
        assert(self.entries@.take(i as int) == self.entries@);
        self.entries = kept;
    }

    /// Pin `model` to `cap`, in place of an earlier pin.
    pub fn insert(&mut self, model: String, cap: usize)
        ensures
            final(self)@ == old(self)@.insert(model@, cap),
    {
        let ghost before = self@;
        self.remove(&model);
        proof {
            lemma_pins_push(self.entries@, (model, cap));
            assert(before.remove(model@).insert(model@, cap) =~= before.insert(model@, cap));
        }
        self.entries.push((model, cap));
    }

    /// The wire shape of the pins.
    pub fn to_json(&self) -> (r: Json)
        ensures
            r@ == pins_json(self@),
    {
        let mut out = Json::object();
        assert(out@ == pins_json(pins(self.entries@.take(0)))) by {
            assert(pins_json(Map::empty())->Object_0 =~= empty_object()->Object_0);
        }
        let mut i: usize = 0;
        while i < self.entries.len()
            invariant
                i <= self.entries@.len(),
                out@ == pins_json(pins(self.entries@.take(i as int))),
            decreases self.entries@.len() - i,
        {
            let ghost all = self.entries@;
            proof {
                assert(all.take(i + 1) == all.take(i as int).push(all[i as int]));
                lemma_pins_push(all.take(i as int), all[i as int]);
            }
            let ghost before = pins(all.take(i as int));
            out = out.with(&self.entries[i].0, Json::uint(self.entries[i].1 as u64));
            assert(pins_json(before.insert(all[i as int].0@, all[i as int].1))->Object_0
                =~= pins_json(before)->Object_0.insert(
                all[i as int].0@,
                JsonV::Int(all[i as int].1 as int),
            ));
            i = i + 1;
        }
        assert(self.entries@.take(i as int) == self.entries@);
        out
    }
}

impl Clone for Overrides {
    fn clone(&self) -> (r: Self)
        ensures
            r@ == self@,
    {
        let mut entries: Vec<(String, usize)> = Vec::new();
        let mut i: usize = 0;
        while i < self.entries.len()
            invariant
                i <= self.entries@.len(),
                pins(entries@) == pins(self.entries@.take(i as int)),
            decreases self.entries@.len() - i,
        {
            let e = (self.entries[i].0.clone(), self.entries[i].1);
            proof {
                let all = self.entries@;
                assert(all.take(i + 1) == all.take(i as int).push(all[i as int]));
                lemma_pins_push(all.take(i as int), all[i as int]);
                lemma_pins_push(entries@, e);
            }
            entries.push(e);
            i = i + 1;
        }
        assert(self.entries@.take(i as int) == self.entries@);
        Overrides { entries }
    }
}

/// The per-model concurrency gate.
#[derive(Debug)]
pub struct GovernorCfg {
    pub enabled: bool,
    pub overrides: Overrides,
}

#[verifier::ext_equal]
pub struct GovernorV {
    pub enabled: bool,
    pub overrides: Map<Seq<char>, usize>,
}

impl View for GovernorCfg {
    type V = GovernorV;

    open spec fn view(&self) -> GovernorV {
        GovernorV { enabled: self.enabled, overrides: self.overrides@ }
    }
}

impl Clone for GovernorCfg {
    fn clone(&self) -> (r: Self)
        ensures
            r@ == self@,
    {
        GovernorCfg { enabled: self.enabled, overrides: self.overrides.clone() }
    }
}

/// The provider the gateway's own `web_search` reads.
#[derive(Debug)]
pub struct WebSearchCfg {
    pub base_url: String,
    pub format: SearchFormat,
    pub max_results: u8,
    pub timeout_secs: u64,
}

#[verifier::ext_equal]
pub struct WebSearchCfgV {
    pub base_url: Seq<char>,
    pub format: SearchFormat,
    pub max_results: u8,
    pub timeout_secs: u64,
}

impl View for WebSearchCfg {
    type V = WebSearchCfgV;

    open spec fn view(&self) -> WebSearchCfgV {
        WebSearchCfgV {
            base_url: self.base_url@,
            format: self.format,
            max_results: self.max_results,
            timeout_secs: self.timeout_secs,
        }
    }
}

impl Clone for WebSearchCfg {
    fn clone(&self) -> (r: Self)
        ensures
            r@ == self@,
    {
        WebSearchCfg {
            base_url: self.base_url.clone(),
            format: self.format,
            max_results: self.max_results,
            timeout_secs: self.timeout_secs,
        }
    }
}

/// The upstream and the keys it is called with.
#[derive(Debug)]
pub struct Upstream {
    pub base_url: String,
    pub nim_keys: Vec<NimKey>,
}

/// Who may call `/v1`.
#[derive(Debug)]
pub struct ClientAuth {
    pub mode: Mode,
    pub keys: Vec<ClientKey>,
}

/// How long metrics history is kept.
#[derive(Clone, Copy, Debug)]
pub struct HistoryCfg {
    /// Retention in days; 0 keeps it forever.
    pub days: u64,
}

/// The whole store.
#[derive(Debug)]
pub struct StoredConfig {
    pub users: Vec<User>,
    pub upstream: Upstream,
    pub client_auth: ClientAuth,
    pub limits: Limits,
    pub history: HistoryCfg,
    pub dashboard: DashboardCfg,
    pub governor: GovernorCfg,
    pub web_search: WebSearchCfg,
    pub default_locale: String,
}

/// The view of a [`StoredConfig`].
#[verifier::ext_equal]
pub struct StoreV {
    pub users: Seq<UserV>,
    pub base_url: Seq<char>,
    pub nim_keys: Seq<NimKeyV>,
    pub mode: Mode,
    pub client_keys: Seq<ClientKeyV>,
    pub limits: Limits,
    pub history_days: u64,
    pub dashboard: DashboardV,
    pub governor: GovernorV,
    pub web_search: WebSearchCfgV,
    pub default_locale: Seq<char>,
}

impl View for StoredConfig {
    type V = StoreV;

    open spec fn view(&self) -> StoreV {
        StoreV {
            users: users_view(self.users@),
            base_url: self.upstream.base_url@,
            nim_keys: nim_keys_view(self.upstream.nim_keys@),
            mode: self.client_auth.mode,
            client_keys: client_keys_view(self.client_auth.keys@),
            limits: self.limits,
            history_days: self.history.days,
            dashboard: self.dashboard@,
            governor: self.governor@,
            web_search: self.web_search@,
            default_locale: self.default_locale@,
        }
    }
}

/// Being the user called `name`.
pub open spec fn called(name: Seq<char>) -> spec_fn(UserV) -> bool {
    |u: UserV| u.username == name
}

/// Being the superuser.
pub open spec fn supreme() -> spec_fn(UserV) -> bool {
    |u: UserV| u.role == Role::Superuser
}

impl StoreV {
    /// The user called `name`.
    pub open spec fn user(self, name: Seq<char>) -> Option<UserV> {
        match first_where(self.users, called(name)) {
            Some(i) => Some(self.users[i]),
            None => None,
        }
    }

    /// The superuser.
    pub open spec fn superuser(self) -> Option<UserV> {
        match first_where(self.users, supreme()) {
            Some(i) => Some(self.users[i]),
            None => None,
        }
    }
}

/// Where the first user called `name` stands in `users`.
pub fn find_user(users: &Vec<User>, name: &str) -> (r: Option<usize>)
    ensures
        match r {
            Some(i) => first_where(users_view(users@), called(name@)) == Some(i as int) && i
                < users@.len(),
            None => first_where(users_view(users@), called(name@)) is None,
        },
{
    let ghost all = users_view(users@);
    let ghost p = called(name@);
    let mut i: usize = 0;
    while i < users.len()
        invariant
            i <= users@.len(),
            all == users_view(users@),
            p == called(name@),
            first_where(all.take(i as int), p) is None,
        decreases users@.len() - i,
    {
        if same(&users[i].username, name) {
            proof {
                lemma_first_found(all, p, i as int);
            }
            return Some(i);
        }
        proof {
            lemma_first_step(all, p, i as int);
        }
        i = i + 1;
    }
    assert(all.take(i as int) == all);
    None
}

/// Where the first superuser stands in `users`.
pub fn find_superuser(users: &Vec<User>) -> (r: Option<usize>)
    ensures
        match r {
            Some(i) => first_where(users_view(users@), supreme()) == Some(i as int) && i
                < users@.len(),
            None => first_where(users_view(users@), supreme()) is None,
        },
{
    let ghost all = users_view(users@);
    let ghost p = supreme();
    let mut i: usize = 0;
    while i < users.len()
        invariant
            i <= users@.len(),
            all == users_view(users@),
            p == supreme(),
            first_where(all.take(i as int), p) is None,
        decreases users@.len() - i,
    {
        if users[i].role == Role::Superuser {
            proof {
                lemma_first_found(all, p, i as int);
            }
            return Some(i);
        }
        proof {
            lemma_first_step(all, p, i as int);
        }
        i = i + 1;
    }
    assert(all.take(i as int) == all);
    None
}

impl StoredConfig {
    /// The user called `name`.
    pub fn user(&self, name: &str) -> (r: Option<&User>)
        ensures
            match r {
                Some(u) => self@.user(name@) == Some(u@),
                None => self@.user(name@) is None,
            },
    {
        match find_user(&self.users, name) {
            Some(i) => Some(&self.users[i]),
            None => None,
        }
    }

    /// The superuser.
    pub fn superuser(&self) -> (r: Option<&User>)
        ensures
            match r {
                Some(u) => self@.superuser() == Some(u@),
                None => self@.superuser() is None,
            },
    {
        match find_superuser(&self.users) {
            Some(i) => Some(&self.users[i]),
            None => None,
        }
    }
}

impl Clone for StoredConfig {
    fn clone(&self) -> (r: Self)
        ensures
            r@ == self@,
    {
        let users = self.users.clone();
        assert(users_view(users@) =~= users_view(self.users@));
        let nim_keys = self.upstream.nim_keys.clone();
        assert(nim_keys_view(nim_keys@) =~= nim_keys_view(self.upstream.nim_keys@));
        let keys = self.client_auth.keys.clone();
        assert(client_keys_view(keys@) =~= client_keys_view(self.client_auth.keys@));
        StoredConfig {
            users,
            upstream: Upstream { base_url: self.upstream.base_url.clone(), nim_keys },
            client_auth: ClientAuth { mode: self.client_auth.mode, keys },
            limits: self.limits,
            history: self.history,
            dashboard: self.dashboard,
            governor: self.governor.clone(),
            web_search: self.web_search.clone(),
            default_locale: self.default_locale.clone(),
        }
    }
}

/// A blank store: keyed access with nobody and nothing in it, and every
/// number zero until the deployment sets it.
pub open spec fn blank() -> StoreV {
    StoreV {
        users: Seq::empty(),
        base_url: Seq::empty(),
        nim_keys: Seq::empty(),
        mode: Mode::Keyed,
        client_keys: Seq::empty(),
        limits: Limits {
            heartbeat_secs: 0,
            max_inflight: 0,
            max_wait_secs: 0,
            models_ttl_secs: 0,
            request_timeout_secs: 0,
            stream_idle_secs: 0,
            strict_passthrough: false,
        },
        history_days: 0,
        dashboard: DashboardV { default_window_days: 0, slo_target_percent: 0 },
        governor: GovernorV { enabled: false, overrides: Map::empty() },
        web_search: WebSearchCfgV {
            base_url: Seq::empty(),
            format: SearchFormat::Rss,
            max_results: 0,
            timeout_secs: 0,
        },
        default_locale: "en-US"@,
    }
}

impl Default for StoredConfig {
    fn default() -> (r: Self)
        ensures
            r@ == blank(),
    {
        let r = StoredConfig {
            users: Vec::new(),
            upstream: Upstream { base_url: String::new(), nim_keys: Vec::new() },
            client_auth: ClientAuth { mode: Mode::Keyed, keys: Vec::new() },
            limits: Limits {
                heartbeat_secs: 0,
                max_inflight: 0,
                max_wait_secs: 0,
                models_ttl_secs: 0,
                request_timeout_secs: 0,
                stream_idle_secs: 0,
                strict_passthrough: false,
            },
            history: HistoryCfg { days: 0 },
            dashboard: DashboardCfg { default_window_days: 0, slo_target_percent: FiniteFloat::zero() },
            governor: GovernorCfg { enabled: false, overrides: Overrides::new() },
            web_search: WebSearchCfg {
                base_url: String::new(),
                format: SearchFormat::Rss,
                max_results: 0,
                timeout_secs: 0,
            },
            default_locale: "en-US".to_string(),
        };
        assert(r@ =~= blank());
        r
    }
}

}
