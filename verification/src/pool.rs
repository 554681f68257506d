//! Pool of connections to dynamic MCP servers, with least-recently-used
//! eviction.

use lru::LruCache;
use std::collections::hash_map::DefaultHasher;
use std::hash::{Hash, Hasher};
use std::num::NonZeroUsize;
use vstd::prelude::*;
use vstd::std_specs::hash::DefaultHasherAdditionalSpecFns;

use crate::config::{McpProxyConfig, McpServerConfig, McpTransport};
use crate::order::{pair_list, sort_pairs, sorted_pairs, Pair};
use crate::text::{clone_opt, join, joined, opt_view, text_eq, views};

verus! {

broadcast use vstd::string::group_string_axioms;

// ---------------------------------------------------------------------------
// Keys
// ---------------------------------------------------------------------------

/// Identity of a pooled connection. Credentials are kept as a hash only.
#[derive(Debug, Clone, PartialEq, Eq, Hash)]
pub struct PoolKey {
    pub url: String,
    pub auth_hash: u64,
    pub tenant_id: Option<String>,
}

/// What a [`PoolKey`] stands for: address, hash of the credentials, tenant.
pub type KeyView = (Seq<char>, u64, Option<Seq<char>>);

impl View for PoolKey {
    type V = KeyView;

    open spec fn view(&self) -> KeyView {
        (self.url@, self.auth_hash, opt_view(self.tenant_id))
    }
}

/// What `str::hash` hands to the hasher for a text.
pub uninterp spec fn text_hash_writes(text: Seq<char>) -> Seq<Seq<u8>>;

/// Feeds a text to a hasher by the `Hash` implementation of `str`, which hands
/// the hasher a sequence of writes that depends on the text alone.
#[verifier::external_body]
fn hash_text(text: &str, state: &mut DefaultHasher)
    ensures
        final(state)@ == old(state)@ + text_hash_writes(text@),
{
    text.hash(state)
}

/// The writes for a list of headers: each name, then its value.
pub open spec fn header_writes(headers: Seq<Pair>) -> Seq<Seq<u8>>
    decreases headers.len(),
{
    if headers.len() == 0 {
        Seq::empty()
    } else {
        header_writes(headers.drop_last()) + text_hash_writes(headers.last().0)
            + text_hash_writes(headers.last().1)
    }
}

/// The writes for a token, if there is one.
pub open spec fn token_writes(token: Option<Seq<char>>) -> Seq<Seq<u8>> {
    match token {
        Some(t) => text_hash_writes(t),
        None => Seq::empty(),
    }
}

/// The hash of credentials: 0 where there are none, else that of the token and
/// of the headers in the order of their names.
pub open spec fn auth_hash(token: Option<Seq<char>>, headers: Seq<Pair>) -> u64 {
    if token is None && headers.len() == 0 {
        0
    } else {
        DefaultHasher::spec_finish(token_writes(token) + header_writes(sort_pairs(headers)))
    }
}

/// The key of a server's connection for a tenant.
pub open spec fn config_key(transport: McpTransport, tenant: Option<Seq<char>>) -> KeyView {
    match transport {
        McpTransport::Streamable { url, token, headers } => (
            url@,
            auth_hash(opt_view(token), pair_list(headers@)),
            tenant,
        ),
        McpTransport::Sse { url, token, headers } => (
            url@,
            auth_hash(opt_view(token), pair_list(headers@)),
            tenant,
        ),
        McpTransport::Stdio { command, args, envs } => (
            command@ + ":"@ + joined(views(args@), " "@),
            0,
            tenant,
        ),
    }
}

/// The order in which headers are listed does not change the key.
pub proof fn law_key_ignores_header_order(token: Option<Seq<char>>, a: Seq<Pair>, b: Seq<Pair>)
    requires
        a.to_multiset() == b.to_multiset(),
        crate::order::distinct_keys(a),
        crate::order::distinct_keys(b),
    ensures
        auth_hash(token, a) == auth_hash(token, b),
{
    broadcast use vstd::seq_lib::group_to_multiset_ensures;

    crate::order::law_sorting_forgets_order(a, b);
    assert(a.len() == a.to_multiset().len());
    assert(b.len() == b.to_multiset().len());
}

/// One server has a different key for each tenant.
pub proof fn law_key_separates_tenants(
    transport: McpTransport,
    a: Option<Seq<char>>,
    b: Option<Seq<char>>,
)
    requires
        a != b,
    ensures
        config_key(transport, a) != config_key(transport, b),
{
}

impl PoolKey {
    /// The key with these parts.
    pub fn new(url: String, auth_hash: u64, tenant_id: Option<String>) -> (key: PoolKey)
        ensures
            key == (PoolKey { url, auth_hash, tenant_id }),
    {
        PoolKey { url, auth_hash, tenant_id }
    }

    /// The key of a server's connection for a tenant.
    pub fn from_config(config: &McpServerConfig, tenant_id: Option<String>) -> (key: PoolKey)
        ensures
            key@ == config_key(config.transport, opt_view(tenant_id)),
    {
        match &config.transport {
            McpTransport::Streamable { url, token, headers } => PoolKey {
                url: url.clone(),
                auth_hash: PoolKey::hash_auth(token, headers),
                tenant_id,
            },
            McpTransport::Sse { url, token, headers } => PoolKey {
                url: url.clone(),
                auth_hash: PoolKey::hash_auth(token, headers),
                tenant_id,
            },
            McpTransport::Stdio { command, args, .. } => {
                let mut url: String = command.clone();
                url.append(":");
                url.append(join(args, " ").as_str());
                PoolKey { url, auth_hash: 0, tenant_id }
            },
        }
    }

    /// Hashes a token and headers; 0 where there are none.
    pub fn hash_auth(token: &Option<String>, headers: &Vec<(String, String)>) -> (hash: u64)
        ensures
            hash == auth_hash(opt_view(*token), pair_list(headers@)),
    {
        if token.is_none() && headers.is_empty() {
            return 0;
        }
        let mut hasher = DefaultHasher::new();
        if let Some(t) = token {
            hash_text(t.as_str(), &mut hasher);
        }
        assert(hasher@ =~= token_writes(opt_view(*token)));
        let sorted = sorted_pairs(headers);
        let ghost list = pair_list(sorted@);
        assert(hasher@ =~= token_writes(opt_view(*token)) + header_writes(list.take(0)));
        for i in 0..sorted.len()
            invariant
                list == pair_list(sorted@),
                hasher@ == token_writes(opt_view(*token)) + header_writes(list.take(i as int)),
        {
            hash_text(sorted[i].0.as_str(), &mut hasher);
            hash_text(sorted[i].1.as_str(), &mut hasher);
            proof {
                let next = list.take(i + 1);
                assert(next.drop_last() =~= list.take(i as int));
                assert(next.last() == list[i as int]);
                assert(hasher@ =~= token_writes(opt_view(*token)) + header_writes(next));
            }
        }
        assert(list.take(sorted@.len() as int) =~= list);
        hasher.finish()
    }

    /// The address of the server.
    pub fn url(&self) -> (r: &str)
        ensures
            r@ == self.url@,
    {
        self.url.as_str()
    }
}

// ---------------------------------------------------------------------------
// The cache
// ---------------------------------------------------------------------------

#[verifier::external_type_specification]
#[verifier::external_body]
#[verifier::reject_recursive_types(K)]
#[verifier::reject_recursive_types(V)]
#[verifier::reject_recursive_types(S)]
pub struct ExLruCache<K, V, S>(LruCache<K, V, S>);

#[verifier::external_type_specification]
#[verifier::external_body]
pub struct ExCacheHasher(lru::DefaultHasher);

/// A key in the form in which the cache holds it.
pub type CacheKey = (String, u64, Option<String>);

/// What a cache holds, the most recently used entry first.
pub uninterp spec fn cache_entries(cache: LruCache<(String, u64, Option<String>), u64>) -> Seq<
    ((Seq<char>, u64, Option<Seq<char>>), u64),
>;

/// The most entries that a cache holds.
pub uninterp spec fn cache_capacity(cache: LruCache<(String, u64, Option<String>), u64>) -> nat;

/// The largest capacity for which the table behind a cache can be laid out.
pub const MAX_POOL_CAPACITY: usize = usize::MAX / 128;

/// The view of a key as the cache holds it.
pub open spec fn cache_key(key: CacheKey) -> KeyView {
    (key.0@, key.1, opt_view(key.2))
}

/// The entries of a pool, the most recently used one first.
pub type PoolEntries = Seq<(KeyView, u64)>;

/// The position of `key` among the entries from `from` on; their number where
/// it is not there.
pub open spec fn key_index(entries: PoolEntries, key: KeyView, from: int) -> int
    decreases entries.len() - from,
{
    if from >= entries.len() {
        entries.len() as int
    } else if entries[from].0 == key {
        from
    } else {
        key_index(entries, key, from + 1)
    }
}

/// The connection under `key`.
pub open spec fn pooled(entries: PoolEntries, key: KeyView) -> Option<u64> {
    let at = key_index(entries, key, 0);
    if at < entries.len() {
        Some(entries[at].1)
    } else {
        None
    }
}

/// The entries after `key` was used: its entry, if it has one, comes first.
pub open spec fn touched(entries: PoolEntries, key: KeyView) -> PoolEntries {
    let at = key_index(entries, key, 0);
    if at < entries.len() {
        seq![entries[at]] + entries.remove(at)
    } else {
        entries
    }
}

/// The entries after a connection was put under `key`: it comes first; the
/// earlier one under the key leaves, or, in a full pool, the least recently
/// used one.
pub open spec fn pushed(
    entries: PoolEntries,
    capacity: nat,
    key: KeyView,
    client: u64,
) -> PoolEntries {
    let at = key_index(entries, key, 0);
    if at < entries.len() {
        seq![(key, client)] + entries.remove(at)
    } else if entries.len() == capacity {
        seq![(key, client)] + entries.drop_last()
    } else {
        seq![(key, client)] + entries
    }
}

/// The entry that leaves when a connection is put under `key`.
pub open spec fn displaced(entries: PoolEntries, capacity: nat, key: KeyView) -> Option<
    (KeyView, u64),
> {
    let at = key_index(entries, key, 0);
    if at < entries.len() {
        Some(entries[at])
    } else if entries.len() == capacity {
        Some(entries.last())
    } else {
        None
    }
}

/// Makes a cache by `LruCache::new`: it is empty and holds as many entries as
/// asked for. The table behind it is laid out at once, which fails for a
/// capacity that no address range can hold.
#[verifier::external_body]
fn cache_new(capacity: usize) -> (cache: LruCache<CacheKey, u64>)
    requires
        0 < capacity <= MAX_POOL_CAPACITY,
    ensures
        cache_entries(cache) == Seq::<(KeyView, u64)>::empty(),
        cache_capacity(cache) == capacity,
{
    LruCache::new(NonZeroUsize::new(capacity).unwrap_or(NonZeroUsize::MIN))
}

/// Looks a key up by `LruCache::get`, which moves its entry to the front.
#[verifier::external_body]
fn cache_get(cache: &mut LruCache<CacheKey, u64>, key: &CacheKey) -> (client: Option<u64>)
    ensures
        client == pooled(cache_entries(*old(cache)), cache_key(*key)),
        cache_entries(*final(cache)) == touched(cache_entries(*old(cache)), cache_key(*key)),
        cache_capacity(*final(cache)) == cache_capacity(*old(cache)),
{
    cache.get(key).copied()
}

/// Puts an entry in front by `LruCache::push`, which gives back the entry that
/// it replaced: that of the same key, or the last one of a full cache.
#[verifier::external_body]
fn cache_push(cache: &mut LruCache<CacheKey, u64>, key: CacheKey, client: u64) -> (out: Option<
    (CacheKey, u64),
>)
    ensures
        cache_entries(*final(cache)) == pushed(
            cache_entries(*old(cache)),
            cache_capacity(*old(cache)),
            cache_key(key),
            client,
        ),
        cache_capacity(*final(cache)) == cache_capacity(*old(cache)),
        match out {
            Some(entry) => displaced(
                cache_entries(*old(cache)),
                cache_capacity(*old(cache)),
                cache_key(key),
            ) == Some((cache_key(entry.0), entry.1)),
            None => displaced(
                cache_entries(*old(cache)),
                cache_capacity(*old(cache)),
                cache_key(key),
            ) is None,
        },
{
    cache.push(key, client)
}

/// Asks by `LruCache::contains` whether a key has an entry, and moves nothing.
#[verifier::external_body]
fn cache_contains(cache: &LruCache<CacheKey, u64>, key: &CacheKey) -> (r: bool)
    ensures
        r == (pooled(cache_entries(*cache), cache_key(*key)) is Some),
{
    cache.contains(key)
}

/// Takes all entries out by `LruCache::clear`.
#[verifier::external_body]
fn cache_clear(cache: &mut LruCache<CacheKey, u64>)
    ensures
        cache_entries(*final(cache)) == Seq::<(KeyView, u64)>::empty(),
        cache_capacity(*final(cache)) == cache_capacity(*old(cache)),
{
    cache.clear()
}

/// The view of a listed entry.
pub open spec fn listed(list: Seq<(CacheKey, u64)>) -> PoolEntries {
    Seq::new(list.len(), |i: int| (cache_key(list[i].0), list[i].1))
}

/// Lists the entries by `LruCache::iter`, the most recently used one first.
#[verifier::external_body]
fn cache_list(cache: &LruCache<CacheKey, u64>) -> (list: Vec<(CacheKey, u64)>)
    ensures
        listed(list@) == cache_entries(*cache),
{
    cache.iter().map(|(key, client)| (key.clone(), *client)).collect()
}

// ---------------------------------------------------------------------------
// The pool
// ---------------------------------------------------------------------------

/// Whether every key has one entry.
pub open spec fn keys_distinct(entries: PoolEntries) -> bool {
    forall|i: int, j: int|
        0 <= i < entries.len() && 0 <= j < entries.len() && i != j ==> (#[trigger] entries[i]).0
            != (#[trigger] entries[j]).0
}

/// Pool of connections to dynamic servers. A connection is named by a number.
pub struct McpConnectionPool {
    connections: LruCache<CacheKey, u64>,
    connection_count: usize,
    max_connections: usize,
    global_proxy: Option<McpProxyConfig>,
}

/// Statistics of a connection pool.
#[derive(Debug, Clone)]
pub struct PoolStats {
    pub total_connections: usize,
    pub capacity: usize,
}

/// The pool size where none is asked for.
pub const DEFAULT_MAX_CONNECTIONS: usize = 200;

proof fn lemma_key_index(entries: PoolEntries, key: KeyView, from: int)
    requires
        0 <= from <= entries.len(),
    ensures
        from <= key_index(entries, key, from) <= entries.len(),
        key_index(entries, key, from) < entries.len() ==> entries[key_index(entries, key, from)].0
            == key,
        forall|j: int|
            from <= j < key_index(entries, key, from) ==> (#[trigger] entries[j]).0 != key,
    decreases entries.len() - from,
{
    if from < entries.len() && entries[from].0 != key {
        lemma_key_index(entries, key, from + 1);
    }
}

proof fn lemma_key_index_is(entries: PoolEntries, key: KeyView, at: int)
    requires
        0 <= at <= entries.len(),
        at < entries.len() ==> entries[at].0 == key,
        forall|j: int| 0 <= j < at ==> (#[trigger] entries[j]).0 != key,
    ensures
        key_index(entries, key, 0) == at,
{
    lemma_key_index(entries, key, 0);
    let p = key_index(entries, key, 0);
    if p < at {
        assert(entries[p].0 == key);
    }
}

proof fn lemma_pushed_well_formed(entries: PoolEntries, capacity: nat, key: KeyView, client: u64)
    requires
        keys_distinct(entries),
        entries.len() <= capacity,
        capacity > 0,
    ensures
        keys_distinct(pushed(entries, capacity, key, client)),
        pushed(entries, capacity, key, client).len() <= capacity,
        pushed(entries, capacity, key, client).len() == entries.len() + (if displaced(
            entries,
            capacity,
            key,
        ) is Some {
            0int
        } else {
            1
        }),
{
    lemma_key_index(entries, key, 0);
    let at = key_index(entries, key, 0);
    let after = pushed(entries, capacity, key, client);
    if at < entries.len() {
        let rest = entries.remove(at);
        assert forall|j: int| 0 <= j < rest.len() implies (#[trigger] rest[j]).0 != key by {
            let k = if j < at {
                j
            } else {
                j + 1
            };
            assert(rest[j] == entries[k]);
            assert(entries[k].0 != entries[at].0);
        }
        assert forall|i: int, j: int|
            0 <= i < after.len() && 0 <= j < after.len() && i != j implies (#[trigger] after[i]).0
            != (#[trigger] after[j]).0 by {
            if i > 0 && j > 0 {
                let x = i - 1;
                let y = j - 1;
                let kx = if x < at {
                    x
                } else {
                    x + 1
                };
                let ky = if y < at {
                    y
                } else {
                    y + 1
                };
                assert(after[i] == entries[kx]);
                assert(after[j] == entries[ky]);
            } else if i > 0 {
                assert(after[i] == rest[i - 1]);
            } else {
                assert(after[j] == rest[j - 1]);
            }
        }
    } else {
        assert forall|i: int, j: int|
            0 <= i < after.len() && 0 <= j < after.len() && i != j implies (#[trigger] after[i]).0
            != (#[trigger] after[j]).0 by {
            if i > 0 {
                assert(after[i] == entries[i - 1]);
            }
            if j > 0 {
                assert(after[j] == entries[j - 1]);
            }
        }
    }
}

proof fn lemma_touched_well_formed(entries: PoolEntries, key: KeyView)
    requires
        keys_distinct(entries),
    ensures
        keys_distinct(touched(entries, key)),
        touched(entries, key).len() == entries.len(),
{
    lemma_key_index(entries, key, 0);
    let at = key_index(entries, key, 0);
    if at < entries.len() {
        assert(touched(entries, key) =~= pushed(
            entries,
            (entries.len() + 1) as nat,
            key,
            entries[at].1,
        ));
        lemma_pushed_well_formed(entries, (entries.len() + 1) as nat, key, entries[at].1);
    }
}

/// A connection that was put into the pool is found under its key.
pub proof fn law_pool_finds_what_was_put(
    entries: PoolEntries,
    capacity: nat,
    key: KeyView,
    client: u64,
)
    ensures
        pooled(pushed(entries, capacity, key, client), key) == Some(client),
{
    lemma_key_index_is(pushed(entries, capacity, key, client), key, 0);
}

/// Putting a connection under one key changes what is found under another only
/// where that other entry is the one that leaves: no connection of one tenant,
/// address or credential is ever handed out under another key.
pub proof fn law_pool_keeps_keys_apart(
    entries: PoolEntries,
    capacity: nat,
    key: KeyView,
    client: u64,
    other: KeyView,
)
    requires
        keys_distinct(entries),
        capacity > 0,
        other != key,
    ensures
        pooled(pushed(entries, capacity, key, client), other) == (match displaced(
            entries,
            capacity,
            key,
        ) {
            Some(gone) if gone.0 == other => None,
            _ => pooled(entries, other),
        }),
{
    lemma_key_index(entries, key, 0);
    lemma_key_index(entries, other, 0);
    let at = key_index(entries, key, 0);
    let there = key_index(entries, other, 0);
    let after = pushed(entries, capacity, key, client);
    if at < entries.len() {
        let shifted = if there < entries.len() && there < at {
            there + 1
        } else {
            there
        };
        assert forall|j: int| 0 <= j < shifted implies (#[trigger] after[j]).0 != other by {
            if j > 0 {
                let k = if j - 1 < at {
                    j - 1
                } else {
                    j
                };
                assert(after[j] == entries[k]);
            }
        }
        if there < entries.len() {
            assert(there != at);
            assert(after[shifted] == entries[there]);
        } else {
            assert(after.len() == entries.len());
        }
        lemma_key_index_is(after, other, shifted);
    } else if entries.len() == capacity {
        if there < entries.len() && there == entries.len() - 1 {
            assert forall|j: int| 0 <= j < after.len() implies (#[trigger] after[j]).0 != other by {
                if j > 0 {
                    assert(after[j] == entries[j - 1]);
                }
            }
            lemma_key_index_is(after, other, after.len() as int);
        } else {
            let shifted = if there < entries.len() {
                there + 1
            } else {
                after.len() as int
            };
            assert forall|j: int| 0 <= j < shifted implies (#[trigger] after[j]).0 != other by {
                if j > 0 {
                    assert(after[j] == entries[j - 1]);
                }
            }
            lemma_key_index_is(after, other, shifted);
            if there == entries.len() && entries.len() > 0 {
                assert(entries[entries.len() - 1].0 != other);
            }
        }
    } else {
        assert forall|j: int| 0 <= j < there + 1 implies (#[trigger] after[j]).0 != other by {
            if j > 0 {
                assert(after[j] == entries[j - 1]);
            }
        }
        lemma_key_index_is(after, other, there + 1);
    }
}

impl McpConnectionPool {
    /// The connections of the pool, the most recently used one first.
    pub closed spec fn entries(self) -> PoolEntries {
        cache_entries(self.connections)
    }

    /// The most connections that the pool keeps.
    pub closed spec fn capacity(self) -> nat {
        self.max_connections as nat
    }

    /// The proxy for servers that have none of their own.
    pub closed spec fn proxy(self) -> Option<McpProxyConfig> {
        self.global_proxy
    }

    /// What always holds of a pool: one entry for a key, no more entries than
    /// its capacity, and a count that tells their number.
    pub closed spec fn wf(self) -> bool {
        &&& self.connection_count == cache_entries(self.connections).len()
        &&& cache_capacity(self.connections) == self.max_connections
        &&& 0 < self.max_connections
        &&& cache_entries(self.connections).len() <= self.max_connections
        &&& keys_distinct(cache_entries(self.connections))
    }

    /// A pool of default size.
    pub fn new(env_proxy: Option<McpProxyConfig>) -> (pool: McpConnectionPool)
        ensures
            pool.wf(),
            pool.entries() == Seq::<(KeyView, u64)>::empty(),
            pool.capacity() == 200,
            pool.proxy() == env_proxy,
    {
        McpConnectionPool::with_full_config(DEFAULT_MAX_CONNECTIONS, env_proxy)
    }

    /// A pool for at most this many connections, at least one.
    pub fn with_capacity(max_connections: usize, env_proxy: Option<McpProxyConfig>) -> (pool:
        McpConnectionPool)
        requires
            max_connections <= MAX_POOL_CAPACITY,
        ensures
            pool.wf(),
            pool.entries() == Seq::<(KeyView, u64)>::empty(),
            pool.capacity() == (if max_connections == 0 {
                1
            } else {
                max_connections as nat
            }),
            pool.proxy() == env_proxy,
    {
        McpConnectionPool::with_full_config(max_connections, env_proxy)
    }

    /// A pool for at most this many connections, at least one, and a proxy.
    pub fn with_full_config(
        max_connections: usize,
        global_proxy: Option<McpProxyConfig>,
    ) -> (pool: McpConnectionPool)
        requires
            max_connections <= MAX_POOL_CAPACITY,
        ensures
            pool.wf(),
            pool.entries() == Seq::<(KeyView, u64)>::empty(),
            pool.capacity() == (if max_connections == 0 {
                1
            } else {
                max_connections as nat
            }),
            pool.proxy() == global_proxy,
    {
        let max_connections: usize = if max_connections == 0 {
            1
        } else {
            max_connections
        };
        McpConnectionPool {
            connections: cache_new(max_connections),
            connection_count: 0,
            max_connections,
            global_proxy,
        }
    }

    /// The proxy for servers that have none of their own.
    pub fn global_proxy(&self) -> (r: &Option<McpProxyConfig>)
        ensures
            *r == self.proxy(),
    {
        &self.global_proxy
    }

    fn to_cache_key(key: &PoolKey) -> (r: CacheKey)
        ensures
            cache_key(r) == key@,
    {
        (key.url.clone(), key.auth_hash, clone_opt(&key.tenant_id))
    }

    fn from_cache_key(key: CacheKey) -> (r: PoolKey)
        ensures
            r@ == cache_key(key),
    {
        PoolKey { url: key.0, auth_hash: key.1, tenant_id: key.2 }
    }

    /// The connection under `key`, which becomes the most recently used one.
    pub fn get(&mut self, key: &PoolKey) -> (client: Option<u64>)
        requires
            old(self).wf(),
        ensures
            final(self).wf(),
            client == pooled(old(self).entries(), key@),
            final(self).entries() == touched(old(self).entries(), key@),
            final(self).capacity() == old(self).capacity(),
            final(self).proxy() == old(self).proxy(),
    {
        proof {
            lemma_touched_well_formed(cache_entries(self.connections), key@);
        }
        let wanted = McpConnectionPool::to_cache_key(key);
        cache_get(&mut self.connections, &wanted)
    }

    /// Puts a connection under `key`. Gives the key of the entry that left for
    /// it, if one did: the tools of that server are to be forgotten.
    pub fn insert(&mut self, key: &PoolKey, client: u64) -> (gone: Option<PoolKey>)
        requires
            old(self).wf(),
        ensures
            final(self).wf(),
            final(self).entries() == pushed(
                old(self).entries(),
                old(self).capacity(),
                key@,
                client,
            ),
            match gone {
                Some(k) => displaced(old(self).entries(), old(self).capacity(), key@) matches Some(
                    e,
                ) && e.0 == k@,
                None => displaced(old(self).entries(), old(self).capacity(), key@) is None,
            },
            final(self).capacity() == old(self).capacity(),
            final(self).proxy() == old(self).proxy(),
    {
        proof {
            lemma_pushed_well_formed(
                cache_entries(self.connections),
                self.max_connections as nat,
                key@,
                client,
            );
        }
        let owned = McpConnectionPool::to_cache_key(key);
        match cache_push(&mut self.connections, owned, client) {
            Some(entry) => Some(McpConnectionPool::from_cache_key(entry.0)),
            None => {
                self.connection_count = self.connection_count + 1;
                None
            },
        }
    }

    /// The number of connections.
    pub fn len(&self) -> (n: usize)
        requires
            self.wf(),
        ensures
            n == self.entries().len(),
            n <= self.capacity(),
    {
        self.connection_count
    }

    /// Whether there is no connection.
    pub fn is_empty(&self) -> (r: bool)
        requires
            self.wf(),
        ensures
            r == (self.entries().len() == 0),
    {
        self.connection_count == 0
    }

    /// Forgets all connections.
    pub fn clear(&mut self)
        requires
            old(self).wf(),
        ensures
            final(self).wf(),
            final(self).entries() == Seq::<(KeyView, u64)>::empty(),
            final(self).capacity() == old(self).capacity(),
            final(self).proxy() == old(self).proxy(),
    {
        cache_clear(&mut self.connections);
        self.connection_count = 0;
    }

    /// The number of connections and the capacity.
    pub fn stats(&self) -> (stats: PoolStats)
        requires
            self.wf(),
        ensures
            stats.total_connections == self.entries().len(),
            stats.capacity == self.capacity(),
    {
        PoolStats { total_connections: self.connection_count, capacity: self.max_connections }
    }

    /// The keys of the connections, the most recently used one first.
    pub fn list_keys(&self) -> (keys: Vec<PoolKey>)
        ensures
            keys@.len() == self.entries().len(),
            forall|i: int|
                0 <= i < keys@.len() ==> (#[trigger] keys@[i])@ == self.entries()[i].0,
    {
        let list = cache_list(&self.connections);
        let mut keys: Vec<PoolKey> = Vec::new();
        for i in 0..list.len()
            invariant
                listed(list@) == self.entries(),
                keys@.len() == i,
                forall|j: int| 0 <= j < i ==> (#[trigger] keys@[j])@ == self.entries()[j].0,
        {
            let entry = &list[i];
            keys.push(
                PoolKey {
                    url: entry.0.0.clone(),
                    auth_hash: entry.0.1,
                    tenant_id: clone_opt(&entry.0.2),
                },
            );
            assert(listed(list@)[i as int].0 == cache_key(list@[i as int].0));
        }
        assert(listed(list@).len() == list@.len());
        keys
    }

    /// Whether `key` has a connection. The order of use stays as it is.
    pub fn contains(&self, key: &PoolKey) -> (r: bool)
        ensures
            r == (pooled(self.entries(), key@) is Some),
    {
        let wanted = McpConnectionPool::to_cache_key(key);
        cache_contains(&self.connections, &wanted)
    }

    /// The position of the most recently used connection to an address, among
    /// those from `from` on.
    pub open spec fn url_index(entries: PoolEntries, url: Seq<char>, from: int) -> int
        decreases entries.len() - from,
    {
        if from >= entries.len() {
            entries.len() as int
        } else if entries[from].0.0 == url {
            from
        } else {
            McpConnectionPool::url_index(entries, url, from + 1)
        }
    }

    /// The most recently used connection to an address, whatever its
    /// credentials and tenant. The order of use stays as it is.
    pub fn get_by_url(&self, url: &str) -> (client: Option<u64>)
        ensures
            client == ({
                let at = McpConnectionPool::url_index(self.entries(), url@, 0);
                if at < self.entries().len() {
                    Some(self.entries()[at].1)
                } else {
                    None
                }
            }),
    {
        let list = cache_list(&self.connections);
        assert(listed(list@).len() == list@.len());
        let mut i: usize = 0;
        while i < list.len()
            invariant
                listed(list@) == self.entries(),
                listed(list@).len() == list@.len(),
                i <= list@.len(),
                McpConnectionPool::url_index(self.entries(), url@, 0)
                    == McpConnectionPool::url_index(self.entries(), url@, i as int),
            decreases list@.len() - i,
        {
            assert(listed(list@)[i as int] == (cache_key(list@[i as int].0), list@[i as int].1));
            if text_eq(list[i].0.0.as_str(), url) {
                return Some(list[i].1);
            }
            i += 1;
        }
        None
    }

    /// Whether there is a connection to an address.
    pub fn contains_url(&self, url: &str) -> (r: bool)
        ensures
            r == (McpConnectionPool::url_index(self.entries(), url@, 0) < self.entries().len()),
    {
        self.get_by_url(url).is_some()
    }
}

} // verus!
