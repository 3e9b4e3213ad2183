use vstd::prelude::*;
use vstd::string::StringExecFns;
use crate::utils::{spec_ends_with, spec_u64_digits, strip_suffix_str, u64_to_string};

verus! {

/// How long a cache entry stays fresh after it is written.
pub const CACHE_TTL_SECONDS: u64 = 120;

#[derive(Debug, Clone, Copy, PartialEq, Eq, Structural)]
pub struct ServerConfig {
    pub id: u64,
    pub beta_program: bool,
}

#[derive(Debug, Clone, Copy, PartialEq, Eq, Structural)]
pub struct WelcomeConfig {
    pub server_id: u64,
    pub channel_id: u64,
}

/// The two namespaces of the cache key space.
#[derive(Debug, Clone, Copy, PartialEq, Eq, Structural)]
pub enum RecordKind {
    Server,
    Welcome,
}

/// A snapshot of one durable record, as the cache stores it.
#[derive(Debug, Clone, Copy, PartialEq, Eq, Structural)]
pub enum Record {
    Server(ServerConfig),
    Welcome(WelcomeConfig),
}

/// One cache slot: a record under its namespaced key, fresh until
/// `expires_at`.
#[derive(Debug, Clone, Copy, PartialEq, Eq, Structural)]
pub struct CacheEntry {
    pub kind: RecordKind,
    pub guild: u64,
    pub record: Record,
    pub expires_at: u64,
}

/// A cache key: either a bare name, or a name qualified by a guild ID.
#[derive(Debug)]
pub enum EntryID {
    Base(String),
    WithID((String, u64)),
}

/// The key text an `EntryID` stands for.
pub open spec fn spec_entry_key(e: EntryID) -> Seq<char> {
    match e {
        EntryID::Base(s) => s@,
        EntryID::WithID((s, id)) => s@ + "_"@ + spec_u64_digits(id as nat),
    }
}

/// The key under which a record of `kind` for `guild` is cached.
pub open spec fn spec_cache_key(kind: RecordKind, guild: u64) -> Seq<char> {
    (match kind {
        RecordKind::Server => "server"@,
        RecordKind::Welcome => "welcome"@,
    }) + "_"@ + spec_u64_digits(guild as nat)
}

impl EntryID {
    /// Renders the key as the cache sees it: the name, then an
    /// underscore and the decimal guild ID when one is attached.
    pub fn key_string(&self) -> (r: String)
        ensures
            r@ == spec_entry_key(*self),
    {
        match self {
            EntryID::Base(s) => s.clone(),
            EntryID::WithID((s, id)) => {
                let mut r = s.clone();
                r.append("_");
                let digits = u64_to_string(*id);
                r.append(digits.as_str());
                r
            },
        }
    }
}

/// Builds the cache key text for a record kind and guild.
pub fn cache_key(kind: RecordKind, guild: u64) -> (r: String)
    ensures
        r@ == spec_cache_key(kind, guild),
{
    let name = match kind {
        RecordKind::Server => "server",
        RecordKind::Welcome => "welcome",
    };
    let entry = EntryID::WithID((name.to_owned(), guild));
    entry.key_string()
}

/// The error a store mutation surfaces instead of going through.
#[derive(Debug, Clone, Copy, PartialEq, Eq, Structural)]
pub enum StoreError {
    /// The durable store already holds a record under this key.
    UniqueViolation,
}

// ------------------------------------------------------------------
// Sequences read as key-value maps.
// ------------------------------------------------------------------

/// The map a sequence of keyed records stands for; on duplicate keys
/// the later record wins.
pub open spec fn keyed_map<A, K>(s: Seq<A>, f: spec_fn(A) -> K) -> Map<K, A>
    decreases s.len(),
{
    if s.len() == 0 {
        Map::empty()
    } else {
        keyed_map(s.drop_last(), f).insert(f(s.last()), s.last())
    }
}

/// No two records of `s` share a key.
pub open spec fn unique_keys<A, K>(s: Seq<A>, f: spec_fn(A) -> K) -> bool {
    forall|i: int, j: int| 0 <= i < j < s.len() ==> f(s[i]) != f(s[j])
}

proof fn lemma_keyed_map_dom<A, K>(s: Seq<A>, f: spec_fn(A) -> K, k: K)
    ensures
        keyed_map(s, f).contains_key(k) <==> exists|i: int| 0 <= i < s.len() && f(s[i]) == k,
    decreases s.len(),
{
    if s.len() > 0 {
        lemma_keyed_map_dom(s.drop_last(), f, k);
        if keyed_map(s, f).contains_key(k) {
            if f(s.last()) == k {
                assert(f(s[s.len() - 1]) == k);
            } else {
                let i = choose|i: int| 0 <= i < s.len() - 1 && f(s.drop_last()[i]) == k;
                assert(f(s[i]) == k);
            }
        }
        if exists|i: int| 0 <= i < s.len() && f(s[i]) == k {
            let i = choose|i: int| 0 <= i < s.len() && f(s[i]) == k;
            if i < s.len() - 1 {
                assert(f(s.drop_last()[i]) == k);
            }
        }
    }
}

proof fn lemma_keyed_map_get<A, K>(s: Seq<A>, f: spec_fn(A) -> K, i: int)
    requires
        unique_keys(s, f),
        0 <= i < s.len(),
    ensures
        keyed_map(s, f).contains_key(f(s[i])),
        keyed_map(s, f)[f(s[i])] == s[i],
    decreases s.len(),
{
    if i == s.len() - 1 {
    } else {
        assert(unique_keys(s.drop_last(), f));
        assert(s.drop_last()[i] == s[i]);
        lemma_keyed_map_get(s.drop_last(), f, i);
        assert(f(s[i]) != f(s[s.len() - 1]));
    }
}

proof fn lemma_keyed_map_push<A, K>(s: Seq<A>, f: spec_fn(A) -> K, a: A)
    ensures
        keyed_map(s.push(a), f) == keyed_map(s, f).insert(f(a), a),
{
    assert(s.push(a).drop_last() =~= s);
    assert(s.push(a).last() == a);
}

proof fn lemma_unique_push<A, K>(s: Seq<A>, f: spec_fn(A) -> K, a: A)
    requires
        unique_keys(s, f),
        forall|i: int| 0 <= i < s.len() ==> f(s[i]) != f(a),
    ensures
        unique_keys(s.push(a), f),
{
    let t = s.push(a);
    assert forall|i: int, j: int| 0 <= i < j < t.len() implies f(t[i]) != f(t[j]) by {
        if j < s.len() {
            assert(t[i] == s[i] && t[j] == s[j]);
        } else {
            assert(t[i] == s[i] && t[j] == a);
        }
    }
}

proof fn lemma_keyed_map_update<A, K>(s: Seq<A>, f: spec_fn(A) -> K, i: int, a: A)
    requires
        unique_keys(s, f),
        0 <= i < s.len(),
        f(a) == f(s[i]),
    ensures
        keyed_map(s.update(i, a), f) =~= keyed_map(s, f).insert(f(a), a),
        unique_keys(s.update(i, a), f),
    decreases s.len(),
{
    let t = s.update(i, a);
    assert forall|p: int, q: int| 0 <= p < q < t.len() implies f(t[p]) != f(t[q]) by {
        assert(f(t[p]) == f(s[p]) && f(t[q]) == f(s[q]));
    }
    if i == s.len() - 1 {
        assert(t.drop_last() =~= s.drop_last());
        assert(t.last() == a);
    } else {
        assert(t.drop_last() =~= s.drop_last().update(i, a));
        assert(unique_keys(s.drop_last(), f));
        assert(s.drop_last()[i] == s[i]);
        lemma_keyed_map_update(s.drop_last(), f, i, a);
        assert(t.last() == s.last());
        assert(f(a) != f(s.last()));
    }
}

proof fn lemma_keyed_map_remove<A, K>(s: Seq<A>, f: spec_fn(A) -> K, i: int)
    requires
        unique_keys(s, f),
        0 <= i < s.len(),
    ensures
        keyed_map(s.remove(i), f) =~= keyed_map(s, f).remove(f(s[i])),
        unique_keys(s.remove(i), f),
    decreases s.len(),
{
    let t = s.remove(i);
    assert forall|p: int, q: int| 0 <= p < q < t.len() implies f(t[p]) != f(t[q]) by {
        let p0: int = if p < i {
            p
        } else {
            p + 1
        };
        let q0: int = if q < i {
            q
        } else {
            q + 1
        };
        assert(t[p] == s[p0] && t[q] == s[q0]);
    }
    if i == s.len() - 1 {
        assert(t =~= s.drop_last());
        lemma_keyed_map_dom(s.drop_last(), f, f(s[i]));
        assert(!keyed_map(s.drop_last(), f).contains_key(f(s[i])));
    } else {
        assert(t.drop_last() =~= s.drop_last().remove(i));
        assert(t.last() == s.last());
        assert(unique_keys(s.drop_last(), f));
        assert(s.drop_last()[i] == s[i]);
        lemma_keyed_map_remove(s.drop_last(), f, i);
        assert(f(s[i]) != f(s.last()));
    }
}

// ------------------------------------------------------------------
// The store and its mathematical model.
// ------------------------------------------------------------------

/// What the store holds: the cache under namespaced keys, and the two
/// durable tables under the guild ID.
#[verifier::ext_equal]
pub ghost struct StoreModel {
    pub cache: Map<(RecordKind, u64), CacheEntry>,
    pub servers: Map<u64, ServerConfig>,
    pub welcomes: Map<u64, WelcomeConfig>,
}

/// The key a cache slot sits under.
pub open spec fn cache_key_of() -> spec_fn(CacheEntry) -> (RecordKind, u64) {
    |e: CacheEntry| (e.kind, e.guild)
}

/// The key a guild record sits under.
pub open spec fn server_key_of() -> spec_fn(ServerConfig) -> u64 {
    |c: ServerConfig| c.id
}

/// The key a welcome record sits under.
pub open spec fn welcome_key_of() -> spec_fn(WelcomeConfig) -> u64 {
    |w: WelcomeConfig| w.server_id
}

/// A cache slot's record agrees with the namespace and guild it is
/// keyed under.
pub open spec fn entry_ok(e: CacheEntry) -> bool {
    match e.record {
        Record::Server(c) => e.kind == RecordKind::Server && c.id == e.guild,
        Record::Welcome(w) => e.kind == RecordKind::Welcome && w.server_id == e.guild,
    }
}

/// The configuration store: an expiring cache in front of the two
/// durable tables. The durable tables are the source of truth; the
/// cache short-circuits reads while an entry is fresh.
pub struct ConfigStore {
    cache: Vec<CacheEntry>,
    servers: Vec<ServerConfig>,
    welcomes: Vec<WelcomeConfig>,
}

impl View for ConfigStore {
    type V = StoreModel;

    closed spec fn view(&self) -> StoreModel {
        StoreModel {
            cache: keyed_map(self.cache@, cache_key_of()),
            servers: keyed_map(self.servers@, server_key_of()),
            welcomes: keyed_map(self.welcomes@, welcome_key_of()),
        }
    }
}

// ------------------------------------------------------------------
// What each operation does, stated on the model.
// ------------------------------------------------------------------

/// A cache entry for this key exists and has not expired at `now`.
pub open spec fn cache_fresh(m: StoreModel, kind: RecordKind, g: u64, now: u64) -> bool {
    m.cache.contains_key((kind, g)) && now < m.cache[(kind, g)].expires_at
}

/// What a cache read returns: the stored record on a fresh hit, and
/// nothing on a miss or an expired entry.
pub open spec fn spec_cache_lookup(m: StoreModel, kind: RecordKind, g: u64, now: u64) -> Option<
    Record,
> {
    if cache_fresh(m, kind, g, now) {
        Some(m.cache[(kind, g)].record)
    } else {
        None
    }
}

/// The durable guild record, if one exists.
pub open spec fn spec_durable_server(m: StoreModel, g: u64) -> Option<ServerConfig> {
    if m.servers.contains_key(g) {
        Some(m.servers[g])
    } else {
        None
    }
}

/// The durable welcome record, if one exists.
pub open spec fn spec_durable_welcome(m: StoreModel, g: u64) -> Option<WelcomeConfig> {
    if m.welcomes.contains_key(g) {
        Some(m.welcomes[g])
    } else {
        None
    }
}

/// The cache-aside read of a guild record: a fresh cache hit
/// short-circuits the durable store; anything else falls through.
pub open spec fn spec_get_server(m: StoreModel, g: u64, now: u64) -> Option<ServerConfig> {
    match spec_cache_lookup(m, RecordKind::Server, g, now) {
        Some(Record::Server(c)) => Some(c),
        _ => spec_durable_server(m, g),
    }
}

/// The cache-aside read of a welcome record.
pub open spec fn spec_get_welcome(m: StoreModel, g: u64, now: u64) -> Option<WelcomeConfig> {
    match spec_cache_lookup(m, RecordKind::Welcome, g, now) {
        Some(Record::Welcome(w)) => Some(w),
        _ => spec_durable_welcome(m, g),
    }
}

/// The cache entry a write at `now` leaves behind.
pub open spec fn spec_cache_entry(kind: RecordKind, g: u64, r: Record, now: u64) -> CacheEntry {
    CacheEntry { kind, guild: g, record: r, expires_at: (now + CACHE_TTL_SECONDS) as u64 }
}

/// Creating a guild record: the snapshot enters the cache with a fresh
/// TTL and the record enters the durable table.
pub open spec fn spec_create_server(m: StoreModel, c: ServerConfig, now: u64) -> StoreModel {
    StoreModel {
        cache: m.cache.insert(
            (RecordKind::Server, c.id),
            spec_cache_entry(RecordKind::Server, c.id, Record::Server(c), now),
        ),
        servers: m.servers.insert(c.id, c),
        welcomes: m.welcomes,
    }
}

/// Creating a welcome record, in the same cache-then-durable shape.
pub open spec fn spec_create_welcome(m: StoreModel, w: WelcomeConfig, now: u64) -> StoreModel {
    StoreModel {
        cache: m.cache.insert(
            (RecordKind::Welcome, w.server_id),
            spec_cache_entry(RecordKind::Welcome, w.server_id, Record::Welcome(w), now),
        ),
        servers: m.servers,
        welcomes: m.welcomes.insert(w.server_id, w),
    }
}

/// Updating a guild record: upsert into the durable table, and refresh
/// the cached snapshot so the cache never lags a write.
pub open spec fn spec_update_server(m: StoreModel, c: ServerConfig, now: u64) -> StoreModel {
    StoreModel {
        cache: m.cache.insert(
            (RecordKind::Server, c.id),
            spec_cache_entry(RecordKind::Server, c.id, Record::Server(c), now),
        ),
        servers: m.servers.insert(c.id, c),
        welcomes: m.welcomes,
    }
}

/// Updating a welcome record, with the same upsert-and-refresh shape.
pub open spec fn spec_update_welcome(m: StoreModel, w: WelcomeConfig, now: u64) -> StoreModel {
    StoreModel {
        cache: m.cache.insert(
            (RecordKind::Welcome, w.server_id),
            spec_cache_entry(RecordKind::Welcome, w.server_id, Record::Welcome(w), now),
        ),
        servers: m.servers,
        welcomes: m.welcomes.insert(w.server_id, w),
    }
}

/// Deleting a welcome record: the durable record goes, and the cache
/// key is evicted at the same time.
pub open spec fn spec_delete_welcome(m: StoreModel, g: u64) -> StoreModel {
    StoreModel {
        cache: m.cache.remove((RecordKind::Welcome, g)),
        servers: m.servers,
        welcomes: m.welcomes.remove(g),
    }
}

// ------------------------------------------------------------------
// The executable store.
// ------------------------------------------------------------------

impl ConfigStore {
    /// Keys are unique in every table and every cache slot agrees with
    /// its key.
    pub closed spec fn wf(&self) -> bool {
        &&& unique_keys(self.cache@, cache_key_of())
        &&& unique_keys(self.servers@, server_key_of())
        &&& unique_keys(self.welcomes@, welcome_key_of())
        &&& forall|i: int| 0 <= i < self.cache@.len() ==> entry_ok(#[trigger] self.cache@[i])
    }

    /// An empty store: nothing cached, nothing durable.
    pub fn new() -> (s: Self)
        ensures
            s.wf(),
            s@.cache == Map::<(RecordKind, u64), CacheEntry>::empty(),
            s@.servers == Map::<u64, ServerConfig>::empty(),
            s@.welcomes == Map::<u64, WelcomeConfig>::empty(),
    {
        ConfigStore { cache: Vec::new(), servers: Vec::new(), welcomes: Vec::new() }
    }

    fn cache_index(&self, kind: RecordKind, guild: u64) -> (r: Option<usize>)
        ensures
            match r {
                Some(i) => i < self.cache@.len() && self.cache@[i as int].kind == kind
                    && self.cache@[i as int].guild == guild,
                None => forall|i: int|
                    0 <= i < self.cache@.len() ==> (#[trigger] self.cache@[i]).kind != kind || self.cache@[i].guild
                        != guild,
            },
    {
        let mut i: usize = 0;
        while i < self.cache.len()
            invariant
                i <= self.cache@.len(),
                forall|j: int|
                    0 <= j < i ==> (#[trigger] self.cache@[j]).kind != kind || self.cache@[j].guild
                        != guild,
            decreases self.cache@.len() - i,
        {
            let e = self.cache[i];
            if e.kind == kind && e.guild == guild {
                return Some(i);
            }
            i += 1;
        }
        None
    }

    fn server_index(&self, id: u64) -> (r: Option<usize>)
        ensures
            match r {
                Some(i) => i < self.servers@.len() && self.servers@[i as int].id == id,
                None => forall|i: int|
                    0 <= i < self.servers@.len() ==> (#[trigger] self.servers@[i]).id != id,
            },
    {
        let mut i: usize = 0;
        while i < self.servers.len()
            invariant
                i <= self.servers@.len(),
                forall|j: int| 0 <= j < i ==> (#[trigger] self.servers@[j]).id != id,
            decreases self.servers@.len() - i,
        {
            if self.servers[i].id == id {
                return Some(i);
            }
            i += 1;
        }
        None
    }

    fn welcome_index(&self, id: u64) -> (r: Option<usize>)
        ensures
            match r {
                Some(i) => i < self.welcomes@.len() && self.welcomes@[i as int].server_id == id,
                None => forall|i: int|
                    0 <= i < self.welcomes@.len() ==> (#[trigger] self.welcomes@[i]).server_id
                        != id,
            },
    {
        let mut i: usize = 0;
        while i < self.welcomes.len()
            invariant
                i <= self.welcomes@.len(),
                forall|j: int| 0 <= j < i ==> (#[trigger] self.welcomes@[j]).server_id != id,
            decreases self.welcomes@.len() - i,
        {
            if self.welcomes[i].server_id == id {
                return Some(i);
            }
            i += 1;
        }
        None
    }

    /// Reads the cache alone: the stored record on a fresh hit at
    /// `now`, nothing on a miss or an expired entry.
    pub fn cache_lookup(&self, kind: RecordKind, guild: u64, now: u64) -> (r: Option<Record>)
        requires
            self.wf(),
        ensures
            r == spec_cache_lookup(self@, kind, guild, now),
    {
        match self.cache_index(kind, guild) {
            Some(i) => {
                proof {
                    lemma_keyed_map_get(self.cache@, cache_key_of(), i as int);
                }
                let e = self.cache[i];
                if now < e.expires_at {
                    Some(e.record)
                } else {
                    None
                }
            },
            None => {
                proof {
                    lemma_keyed_map_dom(self.cache@, cache_key_of(), (kind, guild));
                }
                None
            },
        }
    }

    fn durable_server(&self, id: u64) -> (r: Option<ServerConfig>)
        requires
            self.wf(),
        ensures
            r == spec_durable_server(self@, id),
    {
        match self.server_index(id) {
            Some(i) => {
                proof {
                    lemma_keyed_map_get(self.servers@, server_key_of(), i as int);
                }
                Some(self.servers[i])
            },
            None => {
                proof {
                    lemma_keyed_map_dom(self.servers@, server_key_of(), id);
                }
                None
            },
        }
    }

    fn durable_welcome(&self, id: u64) -> (r: Option<WelcomeConfig>)
        requires
            self.wf(),
        ensures
            r == spec_durable_welcome(self@, id),
    {
        match self.welcome_index(id) {
            Some(i) => {
                proof {
                    lemma_keyed_map_get(self.welcomes@, welcome_key_of(), i as int);
                }
                Some(self.welcomes[i])
            },
            None => {
                proof {
                    lemma_keyed_map_dom(self.welcomes@, welcome_key_of(), id);
                }
                None
            },
        }
    }

    /// The cache-aside read of a guild record: check the cache first,
    /// fall through to the durable table on a miss.
    pub fn get_server(&self, server_id: u64, now: u64) -> (r: Option<ServerConfig>)
        requires
            self.wf(),
        ensures
            r == spec_get_server(self@, server_id, now),
    {
        match self.cache_lookup(RecordKind::Server, server_id, now) {
            Some(rec) => match rec {
                Record::Server(c) => Some(c),
                Record::Welcome(_) => self.durable_server(server_id),
            },
            None => self.durable_server(server_id),
        }
    }

    /// The cache-aside read of a welcome record.
    pub fn get_welcome(&self, server_id: u64, now: u64) -> (r: Option<WelcomeConfig>)
        requires
            self.wf(),
        ensures
            r == spec_get_welcome(self@, server_id, now),
    {
        match self.cache_lookup(RecordKind::Welcome, server_id, now) {
            Some(rec) => match rec {
                Record::Welcome(w) => Some(w),
                Record::Server(_) => self.durable_welcome(server_id),
            },
            None => self.durable_welcome(server_id),
        }
    }

    fn cache_put(&mut self, e: CacheEntry)
        requires
            old(self).wf(),
            entry_ok(e),
        ensures
            final(self).wf(),
            final(self)@.cache == old(self)@.cache.insert((e.kind, e.guild), e),
            final(self).servers@ == old(self).servers@,
            final(self).welcomes@ == old(self).welcomes@,
    {
        proof {
            assert(cache_key_of()(e) == (e.kind, e.guild));
        }
        match self.cache_index(e.kind, e.guild) {
            Some(i) => {
                proof {
                    lemma_keyed_map_update(self.cache@, cache_key_of(), i as int, e);
                }
                self.cache[i] = e;
                assert(forall|j: int|
                    0 <= j < self.cache@.len() ==> entry_ok(#[trigger] self.cache@[j]));
            },
            None => {
                proof {
                    lemma_keyed_map_push(self.cache@, cache_key_of(), e);
                    lemma_unique_push(self.cache@, cache_key_of(), e);
                }
                self.cache.push(e);
            },
        }
    }

    /// Writes a new guild record: the snapshot goes to the cache with
    /// a fresh TTL, the record to the durable table. A record already
    /// present under this ID is a unique-key violation and nothing
    /// changes.
    pub fn create_server(&mut self, server: ServerConfig, now: u64) -> (r: Result<
        (),
        StoreError,
    >)
        requires
            old(self).wf(),
            now + CACHE_TTL_SECONDS <= u64::MAX,
        ensures
            final(self).wf(),
            spec_durable_server(old(self)@, server.id) is Some ==> r == Err::<(), StoreError>(
                StoreError::UniqueViolation,
            ) && *final(self) == *old(self),
            spec_durable_server(old(self)@, server.id) is None ==> r == Ok::<(), StoreError>(())
                && final(self)@ == spec_create_server(old(self)@, server, now),
    {
        proof {
            lemma_keyed_map_dom(self.servers@, server_key_of(), server.id);
        }
        if self.server_index(server.id).is_some() {
            return Err(StoreError::UniqueViolation);
        }
        let entry = CacheEntry {
            kind: RecordKind::Server,
            guild: server.id,
            record: Record::Server(server),
            expires_at: now + CACHE_TTL_SECONDS,
        };
        self.cache_put(entry);
        proof {
            assert forall|i: int| 0 <= i < self.servers@.len() implies server_key_of()(
                self.servers@[i],
            ) != server_key_of()(server) by {
                assert(self.servers@[i].id != server.id);
            }
            lemma_keyed_map_push(self.servers@, server_key_of(), server);
            lemma_unique_push(self.servers@, server_key_of(), server);
        }
        self.servers.push(server);
        assert(self@ =~= spec_create_server(old(self)@, server, now));
        Ok(())
    }

    /// Writes a new welcome record, in the same cache-then-durable
    /// shape as `create_server`.
    pub fn create_welcome(&mut self, config: WelcomeConfig, now: u64) -> (r: Result<
        (),
        StoreError,
    >)
        requires
            old(self).wf(),
            now + CACHE_TTL_SECONDS <= u64::MAX,
        ensures
            final(self).wf(),
            spec_durable_welcome(old(self)@, config.server_id) is Some ==> r == Err::<
                (),
                StoreError,
            >(StoreError::UniqueViolation) && *final(self) == *old(self),
            spec_durable_welcome(old(self)@, config.server_id) is None ==> r == Ok::<
                (),
                StoreError,
            >(()) && final(self)@ == spec_create_welcome(old(self)@, config, now),
    {
        proof {
            lemma_keyed_map_dom(self.welcomes@, welcome_key_of(), config.server_id);
        }
        if self.welcome_index(config.server_id).is_some() {
            return Err(StoreError::UniqueViolation);
        }
        let entry = CacheEntry {
            kind: RecordKind::Welcome,
            guild: config.server_id,
            record: Record::Welcome(config),
            expires_at: now + CACHE_TTL_SECONDS,
        };
        self.cache_put(entry);
        proof {
            assert forall|i: int| 0 <= i < self.welcomes@.len() implies welcome_key_of()(
                self.welcomes@[i],
            ) != welcome_key_of()(config) by {
                assert(self.welcomes@[i].server_id != config.server_id);
            }
            lemma_keyed_map_push(self.welcomes@, welcome_key_of(), config);
            lemma_unique_push(self.welcomes@, welcome_key_of(), config);
        }
        self.welcomes.push(config);
        assert(self@ =~= spec_create_welcome(old(self)@, config, now));
        Ok(())
    }

    /// Upserts a guild record and refreshes its cached snapshot, so a
    /// read right after the update sees the new value.
    pub fn update_server(&mut self, server: ServerConfig, now: u64)
        requires
            old(self).wf(),
            now + CACHE_TTL_SECONDS <= u64::MAX,
        ensures
            final(self).wf(),
            final(self)@ == spec_update_server(old(self)@, server, now),
    {
        let entry = CacheEntry {
            kind: RecordKind::Server,
            guild: server.id,
            record: Record::Server(server),
            expires_at: now + CACHE_TTL_SECONDS,
        };
        self.cache_put(entry);
        match self.server_index(server.id) {
            Some(i) => {
                proof {
                    lemma_keyed_map_update(self.servers@, server_key_of(), i as int, server);
                }
                self.servers[i] = server;
            },
            None => {
                proof {
                    lemma_keyed_map_push(self.servers@, server_key_of(), server);
                    lemma_unique_push(self.servers@, server_key_of(), server);
                }
                self.servers.push(server);
            },
        }
        assert(self@ =~= spec_update_server(old(self)@, server, now));
    }

    /// Upserts a welcome record and refreshes its cached snapshot.
    pub fn update_welcome(&mut self, config: WelcomeConfig, now: u64)
        requires
            old(self).wf(),
            now + CACHE_TTL_SECONDS <= u64::MAX,
        ensures
            final(self).wf(),
            final(self)@ == spec_update_welcome(old(self)@, config, now),
    {
        let entry = CacheEntry {
            kind: RecordKind::Welcome,
            guild: config.server_id,
            record: Record::Welcome(config),
            expires_at: now + CACHE_TTL_SECONDS,
        };
        self.cache_put(entry);
        match self.welcome_index(config.server_id) {
            Some(i) => {
                proof {
                    lemma_keyed_map_update(self.welcomes@, welcome_key_of(), i as int, config);
                }
                self.welcomes[i] = config;
            },
            None => {
                proof {
                    lemma_keyed_map_push(self.welcomes@, welcome_key_of(), config);
                    lemma_unique_push(self.welcomes@, welcome_key_of(), config);
                }
                self.welcomes.push(config);
            },
        }
        assert(self@ =~= spec_update_welcome(old(self)@, config, now));
    }

    /// Removes the welcome record and evicts its cache key in the same
    /// call, so a read right after the delete finds nothing, at any
    /// clock value.
    pub fn delete_welcome(&mut self, server_id: u64)
        requires
            old(self).wf(),
        ensures
            final(self).wf(),
            final(self)@ == spec_delete_welcome(old(self)@, server_id),
            forall|t: u64| spec_get_welcome(final(self)@, server_id, t) is None,
    {
        match self.welcome_index(server_id) {
            Some(i) => {
                proof {
                    lemma_keyed_map_remove(self.welcomes@, welcome_key_of(), i as int);
                }
                let _ = self.welcomes.remove(i);
            },
            None => {
                proof {
                    lemma_keyed_map_dom(self.welcomes@, welcome_key_of(), server_id);
                    assert(self@.welcomes.remove(server_id) =~= self@.welcomes);
                }
            },
        }
        match self.cache_index(RecordKind::Welcome, server_id) {
            Some(i) => {
                proof {
                    lemma_keyed_map_remove(self.cache@, cache_key_of(), i as int);
                }
                let _ = self.cache.remove(i);
                assert(forall|j: int|
                    0 <= j < self.cache@.len() ==> entry_ok(#[trigger] self.cache@[j]));
            },
            None => {
                proof {
                    lemma_keyed_map_dom(self.cache@, cache_key_of(), (RecordKind::Welcome, server_id));
                    assert(self@.cache.remove((RecordKind::Welcome, server_id)) =~= self@.cache);
                }
            },
        }
        assert(self@ =~= spec_delete_welcome(old(self)@, server_id));
        proof {
            lemma_keyed_map_dom(self.welcomes@, welcome_key_of(), server_id);
        }
    }
}

// ------------------------------------------------------------------
// The feature toggle gateway.
// ------------------------------------------------------------------

/// The features a guild can toggle; the welcome messages are the only
/// one so far.
#[derive(Debug)]
pub enum Features {
    Welcome(WelcomeConfig),
}

/// How a feature is named in the confirmation replies.
pub open spec fn spec_feature_label(f: Features) -> Seq<char> {
    match f {
        Features::Welcome(_) => "the welcome messages"@,
    }
}

/// The reply confirming that a feature was switched on.
pub open spec fn spec_enable_message(label: Seq<char>) -> Seq<char> {
    "My distinguished lord,\n\nI humbly bring to your attention tidings of great import. The very feature thou didst beseech, namely "@
        + label
        + ", hath been ushered into existence within this realm. May I express my utmost delight in relaying this news, and I beseech thee to partake in its offerings with the same zeal that ignited its conception. In unwavering reverence, I remain...\n    \nYours in loyal service,\n    \nClifton Toaster Reid\nBearer of the Prometheus Banner"@
}

/// The reply confirming that a feature stays switched off.
pub open spec fn spec_disable_message(label: Seq<char>) -> Seq<char> {
    "Honorable Sir,\n\nMay it please thee to know that the feature thou didst inquire about, "@
        + label
        + " by name, hath been deemed unfit for this realm and thus remaineth disabled. It is with regret that I bear this message, for it is my utmost desire to fulfill thy wishes. Thy understanding and continued guidance are invaluable to us.\n\nWith sincerest regards,\n\nClifton Toaster Reid\nBearer of the Prometheus Banner"@
}

/// The reply sent when the caller may not manage the guild.
pub open spec fn spec_permission_denied() -> Seq<char> {
    "Kind and honorable Sir,\n\nWith sincere regret, I must impart that the permissions requisite for the action thou wishest to undertake have not been bestowed upon thee at this juncture. Worry not, for the potential lies ahead. When thou art granted the authority befitting thy station, the path shall be clear for thee to partake in the endeavor. Until then, I remain at your service to address any queries or concerns.\n      \nWith the utmost respect,\n\nClifton Toaster Reid\nBearer of the Prometheus Banner"@
}

/// The reply sent when a toggle names a feature that does not exist,
/// as the enable path words it.
pub open spec fn spec_unknown_feature_enable() -> Seq<char> {
    "Most wondrous and esteemed Sir,\n\nIn awe do I pen these words, for thou hast proven to transcend the passage of ages. How thou came to know of a feature ere its birth baffles my comprehension, yet it is with the utmost admiration that I extend my heartfelt felicitations unto thee. A true master of temporal boundaries, a challenger of time itself, thou art.\n      \nWith boundless respect and marvel,\n      \nClifton Toaster Reid\nBearer of the Prometheus Banner"@
}

/// The same reply as the disable path words it.
pub open spec fn spec_unknown_feature_disable() -> Seq<char> {
    "Most wondrous and esteemed Sir,\n\nIn awe do I pen these words, for thou hast proven to transcend the passage of ages. How thou came to know of a feature ere its birth baffles my comprehension, yet it is with the utmost admiration that I extend my heartfelt felicitations unto thee. A true master of temporal boundaries, a challenger of time itself, thou art.\n        \nWith boundless respect and marvel,\n        \nClifton Toaster Reid\nBearer of the Prometheus Banner"@
}

fn wrap_label(prefix: &str, label: &str, suffix: &str) -> (r: String)
    ensures
        r@ == prefix@ + label@ + suffix@,
{
    let mut s = prefix.to_owned();
    s.append(label);
    s.append(suffix);
    s
}

/// The channel a toggle aims at: the first mentioned channel, or the
/// channel the message came in when none is mentioned.
pub open spec fn spec_target_channel(mentions: Seq<u64>, current: u64) -> u64 {
    if mentions.len() == 0 {
        current
    } else {
        mentions[0]
    }
}

/// Picks the channel a toggle aims at.
pub fn target_channel(mention_channels: &Vec<u64>, current_channel: u64) -> (r: u64)
    ensures
        r == spec_target_channel(mention_channels@, current_channel),
{
    if mention_channels.len() == 0 {
        current_channel
    } else {
        mention_channels[0]
    }
}

impl Features {
    /// Renders the confirmation that this feature was switched on.
    pub fn enable_successful(&self) -> (r: String)
        ensures
            r@ == spec_enable_message(spec_feature_label(*self)),
    {
        let label = match self {
            Features::Welcome(_) => "the welcome messages",
        };
        wrap_label(
            "My distinguished lord,\n\nI humbly bring to your attention tidings of great import. The very feature thou didst beseech, namely ",
            label,
            ", hath been ushered into existence within this realm. May I express my utmost delight in relaying this news, and I beseech thee to partake in its offerings with the same zeal that ignited its conception. In unwavering reverence, I remain...\n    \nYours in loyal service,\n    \nClifton Toaster Reid\nBearer of the Prometheus Banner",
        )
    }

    /// Renders the confirmation that this feature stays switched off.
    pub fn disable_successful(&self) -> (r: String)
        ensures
            r@ == spec_disable_message(spec_feature_label(*self)),
    {
        let label = match self {
            Features::Welcome(_) => "the welcome messages",
        };
        wrap_label(
            "Honorable Sir,\n\nMay it please thee to know that the feature thou didst inquire about, ",
            label,
            " by name, hath been deemed unfit for this realm and thus remaineth disabled. It is with regret that I bear this message, for it is my utmost desire to fulfill thy wishes. Thy understanding and continued guidance are invaluable to us.\n\nWith sincerest regards,\n\nClifton Toaster Reid\nBearer of the Prometheus Banner",
        )
    }

    /// The enable direction of the toggle gateway. The caller's
    /// guild-management authority must already be looked up; without
    /// it nothing changes and the refusal is returned. The one known
    /// feature is `welcome`: enabling it writes a welcome record for
    /// the target channel, and enabling it twice surfaces the
    /// unique-key violation. Any other feature name changes nothing.
    pub fn enable_str(
        store: &mut ConfigStore,
        guild_id: u64,
        mention_channels: &Vec<u64>,
        current_channel: u64,
        has_manage_guild: bool,
        intent: &str,
        now: u64,
    ) -> (r: Result<String, StoreError>)
        requires
            old(store).wf(),
            now + CACHE_TTL_SECONDS <= u64::MAX,
            spec_ends_with(intent@, "_enable"@),
        ensures
            final(store).wf(),
            !has_manage_guild ==> *final(store) == *old(store) && (r matches Ok(m) && m@
                == spec_permission_denied()),
            has_manage_guild && intent@.subrange(0, intent@.len() - "_enable"@.len())
                != "welcome"@ ==> *final(store) == *old(store) && (r matches Ok(m) && m@
                == spec_unknown_feature_enable()),
            has_manage_guild && intent@.subrange(0, intent@.len() - "_enable"@.len())
                == "welcome"@ && spec_durable_welcome(old(store)@, guild_id) is None ==> final(store)@ == spec_create_welcome(
                old(store)@,
                WelcomeConfig {
                    server_id: guild_id,
                    channel_id: spec_target_channel(mention_channels@, current_channel),
                },
                now,
            ) && (r matches Ok(m) && m@ == spec_enable_message("the welcome messages"@)),
            has_manage_guild && intent@.subrange(0, intent@.len() - "_enable"@.len())
                == "welcome"@ && spec_durable_welcome(old(store)@, guild_id) is Some ==> *final(store) == *old(store) && r == Err::<String, StoreError>(StoreError::UniqueViolation),
    {
        if !has_manage_guild {
            return Ok(
                "Kind and honorable Sir,\n\nWith sincere regret, I must impart that the permissions requisite for the action thou wishest to undertake have not been bestowed upon thee at this juncture. Worry not, for the potential lies ahead. When thou art granted the authority befitting thy station, the path shall be clear for thee to partake in the endeavor. Until then, I remain at your service to address any queries or concerns.\n      \nWith the utmost respect,\n\nClifton Toaster Reid\nBearer of the Prometheus Banner".to_owned(),
            );
        }
        let feature = match strip_suffix_str(intent, "_enable") {
            Some(f) => f,
            None => {
                assert(false);
                String::new()
            },
        };
        if feature == "welcome".to_owned() {
            let channel = target_channel(mention_channels, current_channel);
            match WelcomeConfig::new(guild_id, channel, store, now) {
                Ok(t) => Ok(Features::Welcome(t).enable_successful()),
                Err(e) => Err(e),
            }
        } else {
            Ok(
                "Most wondrous and esteemed Sir,\n\nIn awe do I pen these words, for thou hast proven to transcend the passage of ages. How thou came to know of a feature ere its birth baffles my comprehension, yet it is with the utmost admiration that I extend my heartfelt felicitations unto thee. A true master of temporal boundaries, a challenger of time itself, thou art.\n      \nWith boundless respect and marvel,\n      \nClifton Toaster Reid\nBearer of the Prometheus Banner".to_owned(),
            )
        }
    }

    /// The disable direction of the toggle gateway. With authority and
    /// the `welcome` feature named, an existing welcome record is
    /// deleted; when none exists nothing changes, and either way the
    /// same confirmation is rendered, so disabling a feature that was
    /// never enabled still reads as a success. This path never fails.
    pub fn disable_str(
        store: &mut ConfigStore,
        guild_id: u64,
        current_channel: u64,
        has_manage_guild: bool,
        intent: &str,
        now: u64,
    ) -> (r: String)
        requires
            old(store).wf(),
            spec_ends_with(intent@, "_disable"@),
        ensures
            final(store).wf(),
            !has_manage_guild ==> *final(store) == *old(store) && r@ == spec_permission_denied(),
            has_manage_guild && intent@.subrange(0, intent@.len() - "_disable"@.len())
                != "welcome"@ ==> *final(store) == *old(store) && r@
                == spec_unknown_feature_disable(),
            has_manage_guild && intent@.subrange(0, intent@.len() - "_disable"@.len())
                == "welcome"@ && spec_get_welcome(old(store)@, guild_id, now) is Some ==> final(store)@ == spec_delete_welcome(old(store)@, guild_id) && r@ == spec_disable_message(
                "the welcome messages"@,
            ),
            has_manage_guild && intent@.subrange(0, intent@.len() - "_disable"@.len())
                == "welcome"@ && spec_get_welcome(old(store)@, guild_id, now) is None ==> *final(store) == *old(store) && r@ == spec_disable_message("the welcome messages"@),
    {
        if !has_manage_guild {
            return "Kind and honorable Sir,\n\nWith sincere regret, I must impart that the permissions requisite for the action thou wishest to undertake have not been bestowed upon thee at this juncture. Worry not, for the potential lies ahead. When thou art granted the authority befitting thy station, the path shall be clear for thee to partake in the endeavor. Until then, I remain at your service to address any queries or concerns.\n      \nWith the utmost respect,\n\nClifton Toaster Reid\nBearer of the Prometheus Banner".to_owned();
        }
        let feature = match strip_suffix_str(intent, "_disable") {
            Some(f) => f,
            None => {
                assert(false);
                String::new()
            },
        };
        if feature == "welcome".to_owned() {
            match store.get_welcome(guild_id, now) {
                Some(existing) => {
                    store.delete_welcome(guild_id);
                    Features::Welcome(existing).disable_successful()
                },
                None => {
                    Features::Welcome(
                        WelcomeConfig { server_id: guild_id, channel_id: current_channel },
                    ).disable_successful()
                },
            }
        } else {
            "Most wondrous and esteemed Sir,\n\nIn awe do I pen these words, for thou hast proven to transcend the passage of ages. How thou came to know of a feature ere its birth baffles my comprehension, yet it is with the utmost admiration that I extend my heartfelt felicitations unto thee. A true master of temporal boundaries, a challenger of time itself, thou art.\n        \nWith boundless respect and marvel,\n        \nClifton Toaster Reid\nBearer of the Prometheus Banner".to_owned()
        }
    }
}

impl WelcomeConfig {
    /// Builds a welcome record and writes it through the store; a
    /// record already present for the guild surfaces the unique-key
    /// violation instead.
    pub fn new(server_id: u64, channel_id: u64, db: &mut ConfigStore, now: u64) -> (r: Result<
        WelcomeConfig,
        StoreError,
    >)
        requires
            old(db).wf(),
            now + CACHE_TTL_SECONDS <= u64::MAX,
        ensures
            final(db).wf(),
            spec_durable_welcome(old(db)@, server_id) is None ==> r == Ok::<
                WelcomeConfig,
                StoreError,
            >(WelcomeConfig { server_id, channel_id }) && final(db)@ == spec_create_welcome(
                old(db)@,
                WelcomeConfig { server_id, channel_id },
                now,
            ),
            spec_durable_welcome(old(db)@, server_id) is Some ==> r == Err::<
                WelcomeConfig,
                StoreError,
            >(StoreError::UniqueViolation) && *final(db) == *old(db),
    {
        let server = WelcomeConfig { server_id, channel_id };
        match db.create_welcome(server, now) {
            Ok(()) => Ok(server),
            Err(e) => Err(e),
        }
    }
}

// ------------------------------------------------------------------
// The cache-aside laws.
// ------------------------------------------------------------------

/// A welcome record written at `t_write` is served from the cache by
/// every read before the TTL passes; after that the cache misses and
/// the read falls through to the durable store, which still holds the
/// record.
pub proof fn lemma_cache_aside_roundtrip_welcome(
    m: StoreModel,
    w: WelcomeConfig,
    t_write: u64,
    t_read: u64,
)
    requires
        t_write + CACHE_TTL_SECONDS <= u64::MAX,
    ensures
        t_read < t_write + CACHE_TTL_SECONDS ==> spec_cache_lookup(
            spec_create_welcome(m, w, t_write),
            RecordKind::Welcome,
            w.server_id,
            t_read,
        ) == Some(Record::Welcome(w)),
        t_read >= t_write + CACHE_TTL_SECONDS ==> spec_cache_lookup(
            spec_create_welcome(m, w, t_write),
            RecordKind::Welcome,
            w.server_id,
            t_read,
        ) is None,
        spec_get_welcome(spec_create_welcome(m, w, t_write), w.server_id, t_read) == Some(w),
{
}

/// The guild-record half of the cache-aside round trip.
pub proof fn lemma_cache_aside_roundtrip_server(
    m: StoreModel,
    c: ServerConfig,
    t_write: u64,
    t_read: u64,
)
    requires
        t_write + CACHE_TTL_SECONDS <= u64::MAX,
    ensures
        t_read < t_write + CACHE_TTL_SECONDS ==> spec_cache_lookup(
            spec_create_server(m, c, t_write),
            RecordKind::Server,
            c.id,
            t_read,
        ) == Some(Record::Server(c)),
        t_read >= t_write + CACHE_TTL_SECONDS ==> spec_cache_lookup(
            spec_create_server(m, c, t_write),
            RecordKind::Server,
            c.id,
            t_read,
        ) is None,
        spec_get_server(spec_create_server(m, c, t_write), c.id, t_read) == Some(c),
{
}

/// After a delete, a welcome read finds nothing, whatever the clock
/// says: the delete evicts the cache key rather than waiting for the
/// TTL.
pub proof fn lemma_delete_then_read(m: StoreModel, g: u64, now: u64)
    ensures
        spec_get_welcome(spec_delete_welcome(m, g), g, now) is None,
{
}

} // verus!
