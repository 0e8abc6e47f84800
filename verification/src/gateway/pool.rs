//! Session pooling: one idle list of upstream connections per
//! `(user, database)`, created on first use.

use vstd::prelude::*;
use crate::gateway::config::{address_text, ConfigError, GatewayConfig};
use crate::keyed::{
    keys_distinct, lemma_map_of_entries_dom, lemma_map_of_entries_update,
    lemma_map_of_entries_value, map_of_entries,
};
use crate::wire::str_eq;

verus! {

/// Pool identity: one idle list per `(user, database)`.
#[derive(Debug, Clone, Hash)]
pub struct PoolKey {
    pub user: String,
    pub database: String,
}

impl PoolKey {
    pub fn new(user: &str, database: &str) -> (k: Self)
        ensures
            k.user@ == user@,
            k.database@ == database@,
    {
        PoolKey { user: String::from_str(user), database: String::from_str(database) }
    }

    /// Whether two keys name the same user and database.
    pub fn same(&self, other: &PoolKey) -> (b: bool)
        ensures
            b == (self@ == other@),
    {
        str_eq(self.user.as_str(), other.user.as_str()) && str_eq(
            self.database.as_str(),
            other.database.as_str(),
        )
    }
}

impl View for PoolKey {
    type V = (Seq<char>, Seq<char>);

    open spec fn view(&self) -> (Seq<char>, Seq<char>) {
        (self.user@, self.database@)
    }
}

impl PartialEq for PoolKey {
    fn eq(&self, other: &Self) -> (r: bool) {
        self.same(other)
    }
}

impl vstd::std_specs::cmp::PartialEqSpecImpl for PoolKey {
    open spec fn obeys_eq_spec() -> bool {
        true
    }

    open spec fn eq_spec(&self, other: &Self) -> bool {
        self@ == other@
    }
}

impl Eq for PoolKey {

}

/// The idle connections of one `(user, database)` and the upstream they go to.
pub struct UserDatabasePool<E> {
    upstream: String,
    idle: Vec<E>,
}

impl<E> View for UserDatabasePool<E> {
    /// The upstream address and the idle entries, oldest first.
    type V = (Seq<char>, Seq<E>);

    closed spec fn view(&self) -> (Seq<char>, Seq<E>) {
        (self.upstream@, self.idle@)
    }
}

/// The view of the pools: for each key, its upstream and its idle entries.
pub type PoolsView<E> = Map<(Seq<char>, Seq<char>), (Seq<char>, Seq<E>)>;

/// The pools once the pool of `k` exists: created empty, towards
/// `upstream`, if it did not.
pub open spec fn with_pool<E>(m: PoolsView<E>, k: (Seq<char>, Seq<char>), upstream: Seq<char>) -> PoolsView<E> {
    if m.contains_key(k) {
        m
    } else {
        m.insert(k, (upstream, Seq::empty()))
    }
}

/// The pools after an entry is returned to the pool of `k` (nothing changes
/// when there is no such pool).
pub open spec fn released<E>(m: PoolsView<E>, k: (Seq<char>, Seq<char>), e: E) -> PoolsView<E> {
    if m.contains_key(k) {
        m.insert(k, (m[k].0, m[k].1.push(e)))
    } else {
        m
    }
}

/// The idle entry taken from the pool of `k` (the one returned last), and
/// the pools after it is taken.
pub open spec fn acquired<E>(m: PoolsView<E>, k: (Seq<char>, Seq<char>)) -> (Option<E>, PoolsView<E>) {
    if m.contains_key(k) && m[k].1.len() > 0 {
        (Some(m[k].1.last()), m.insert(k, (m[k].0, m[k].1.drop_last())))
    } else {
        (None, m)
    }
}

/// The upstream address of `database` in `config`.
pub open spec fn upstream_of_database(config: GatewayConfig, database: Seq<char>) -> Seq<char> {
    address_text(config.databases@[database].primary.host@, config.databases@[database].primary.port)
}

/// Lazily creates one idle list per [`PoolKey`], towards the upstreams
/// that its configuration names.
pub struct PoolManager<E> {
    config: GatewayConfig,
    pools: Vec<(PoolKey, UserDatabasePool<E>)>,
}

impl<E> View for PoolManager<E> {
    type V = PoolsView<E>;

    closed spec fn view(&self) -> PoolsView<E> {
        map_of_entries(self.pools@)
    }
}

impl<E> PoolManager<E> {
    #[verifier::type_invariant]
    spec fn distinct(self) -> bool {
        &&& keys_distinct(self.pools@)
        &&& forall|i: int|
            0 <= i < self.pools@.len() ==> self.config.databases@.contains_key(
                #[trigger] self.pools@[i].0.database@,
            )
    }

    /// The configuration that the pools' upstreams come from.
    pub closed spec fn config(&self) -> GatewayConfig {
        self.config
    }

    /// No pool yet.
    pub fn new(config: GatewayConfig) -> (m: Self)
        ensures
            m@ == PoolsView::<E>::empty(),
            m.config() == config,
    {
        PoolManager { config, pools: Vec::new() }
    }

    /// Whether the pool of `key` exists.
    pub fn contains(&self, key: &PoolKey) -> (b: bool)
        ensures
            b == self@.contains_key(key@),
    {
        proof {
            lemma_map_of_entries_dom(self.pools@, key@);
        }
        find_pool(&self.pools, key).is_some()
    }

    /// The upstream address of the pool of `key`, if it exists.
    pub fn upstream(&self, key: &PoolKey) -> (r: Option<String>)
        ensures
            r is Some <==> self@.contains_key(key@),
            r matches Some(u) ==> u@ == self@[key@].0,
    {
        proof {
            use_type_invariant(self);
            lemma_map_of_entries_dom(self.pools@, key@);
        }
        match find_pool(&self.pools, key) {
            Some(i) => {
                proof {
                    lemma_map_of_entries_value(self.pools@, i as int);
                }
                Some(self.pools[i].1.upstream.clone())
            },
            None => None,
        }
    }

    /// Makes sure the pool of `key` exists, creating it towards the primary
    /// of its database; refused when that database is not configured.
    pub fn pool_for(&mut self, key: &PoolKey) -> (r: Result<(), ConfigError>)
        ensures
            final(self).config() == old(self).config(),
            r is Ok <==> old(self).config().databases@.contains_key(key.database@),
            r is Ok ==> final(self)@ == with_pool(
                old(self)@,
                key@,
                upstream_of_database(old(self).config(), key.database@),
            ),
            r is Err ==> final(self)@ == old(self)@,
            r matches Err(e) ==> e matches ConfigError::UnknownDatabase(name) && name@
                == key.database@,
    {
        proof {
            use_type_invariant(&*self);
            lemma_map_of_entries_dom(self.pools@, key@);
        }
        if let Some(i) = find_pool(&self.pools, key) {
            proof {
                assert(self.pools@[i as int].0.database@ == key.database@);
            }
            return Ok(());
        }
        let upstream = self.config.primary_upstream(key.database.as_str())?;
        let mut pools = Vec::new();
        std::mem::swap(&mut pools, &mut self.pools);
        let ghost before = pools@;
        let new_key = PoolKey { user: key.user.clone(), database: key.database.clone() };
        pools.push((new_key, UserDatabasePool { upstream, idle: Vec::new() }));
        proof {
            assert(pools@.drop_last() =~= before);
            assert(pools@.last().0@ == key@);
        }
        self.pools = pools;
        Ok(())
    }

    /// Takes the most recently returned idle entry of the pool of
    /// `(user, database)`, creating the pool first when needed.
    pub fn try_acquire_idle(&mut self, user: &str, database: &str) -> (r: Result<
        Option<E>,
        ConfigError,
    >)
        ensures
            final(self).config() == old(self).config(),
            r is Ok <==> old(self).config().databases@.contains_key(database@),
            r matches Ok(taken) ==> (taken, final(self)@) == acquired(
                with_pool(
                    old(self)@,
                    (user@, database@),
                    upstream_of_database(old(self).config(), database@),
                ),
                (user@, database@),
            ),
            r is Err ==> final(self)@ == old(self)@,
            r matches Err(e) ==> e matches ConfigError::UnknownDatabase(name) && name@ == database@,
    {
        let key = PoolKey::new(user, database);
        self.pool_for(&key)?;
        Ok(self.take_idle(&key))
    }

    /// Takes the most recently returned idle entry of the pool of `key`.
    pub fn take_idle(&mut self, key: &PoolKey) -> (taken: Option<E>)
        ensures
            final(self).config() == old(self).config(),
            (taken, final(self)@) == acquired(old(self)@, key@),
    {
        proof {
            use_type_invariant(&*self);
            lemma_map_of_entries_dom(self.pools@, key@);
        }
        let i = match find_pool(&self.pools, key) {
            Some(i) => i,
            None => return None,
        };
        let mut pools = Vec::new();
        std::mem::swap(&mut pools, &mut self.pools);
        let ghost before = pools@;
        proof {
            lemma_map_of_entries_value(before, i as int);
        }
        let (k, mut pool) = pools.remove(i);
        let taken = pool.idle.pop();
        let ghost e = (k, pool);
        pools.insert(i, (k, pool));
        proof {
            assert(pools@ =~= before.update(i as int, e));
            lemma_map_of_entries_update(before, i as int, e);
            if taken is None {
                assert(map_of_entries(before).insert(key@, e.1@) =~= map_of_entries(before));
            }
        }
        self.pools = pools;
        taken
    }

    /// Returns an entry to the idle list of the pool of `key`; when there is
    /// no such pool the entry is handed back.
    pub fn release(&mut self, key: &PoolKey, entry: E) -> (r: Option<E>)
        ensures
            final(self).config() == old(self).config(),
            r is None <==> old(self)@.contains_key(key@),
            r matches Some(back) ==> back == entry,
            final(self)@ == released(old(self)@, key@, entry),
    {
        proof {
            use_type_invariant(&*self);
            lemma_map_of_entries_dom(self.pools@, key@);
        }
        let i = match find_pool(&self.pools, key) {
            Some(i) => i,
            None => return Some(entry),
        };
        let mut pools = Vec::new();
        std::mem::swap(&mut pools, &mut self.pools);
        let ghost before = pools@;
        proof {
            lemma_map_of_entries_value(before, i as int);
        }
        let (k, mut pool) = pools.remove(i);
        pool.idle.push(entry);
        let ghost e = (k, pool);
        pools.insert(i, (k, pool));
        proof {
            assert(pools@ =~= before.update(i as int, e));
            lemma_map_of_entries_update(before, i as int, e);
        }
        self.pools = pools;
        None
    }
}

/// Position of the pool of `key`, if present.
fn find_pool<E>(pools: &Vec<(PoolKey, UserDatabasePool<E>)>, key: &PoolKey) -> (r: Option<usize>)
    ensures
        match r {
            Some(i) => i < pools@.len() && pools@[i as int].0@ == key@,
            None => forall|j: int| 0 <= j < pools@.len() ==> pools@[j].0@ != key@,
        },
{
    let mut i: usize = 0;
    while i < pools.len()
        invariant
            i <= pools@.len(),
            forall|j: int| 0 <= j < i ==> pools@[j].0@ != key@,
        decreases pools@.len() - i,
    {
        if pools[i].0.same(key) {
            return Some(i);
        }
        i += 1;
    }
    None
}

/// A connection returned to its pool is the next one handed out for that
/// key, and the pools are then as they were before it was returned.
pub proof fn lemma_release_then_acquire<E>(m: PoolsView<E>, k: (Seq<char>, Seq<char>), e: E)
    requires
        m.contains_key(k),
    ensures
        acquired(released(m, k, e), k) == (Some(e), m),
{
    let r = released(m, k, e);
    assert(r[k].1.drop_last() =~= m[k].1);
    assert(r.insert(k, (r[k].0, r[k].1.drop_last())) =~= m);
}

/// Returning or taking a connection for one key leaves every other key's
/// pool as it was.
pub proof fn lemma_pools_independent<E>(
    m: PoolsView<E>,
    k: (Seq<char>, Seq<char>),
    other: (Seq<char>, Seq<char>),
    e: E,
)
    requires
        k != other,
    ensures
        released(m, k, e).contains_key(other) == m.contains_key(other),
        m.contains_key(other) ==> released(m, k, e)[other] == m[other],
        acquired(m, k).1.contains_key(other) == m.contains_key(other),
        m.contains_key(other) ==> acquired(m, k).1[other] == m[other],
{
}

/// Creating a pool that exists changes nothing: a pool keeps the upstream
/// it was created with.
pub proof fn lemma_with_pool_idempotent<E>(
    m: PoolsView<E>,
    k: (Seq<char>, Seq<char>),
    u1: Seq<char>,
    u2: Seq<char>,
)
    ensures
        with_pool(with_pool(m, k, u1), k, u2) == with_pool(m, k, u1),
        with_pool(m, k, u1)[k].0 == (if m.contains_key(k) { m[k].0 } else { u1 }),
{
}

/// There is one pool per `(user, database)`: asking again for the pool of
/// a key finds the one made first, and making another key's pool leaves it
/// as it was; each key's pool is the one asking for that key alone gives.
pub proof fn lemma_one_pool_per_key<E>(
    m: PoolsView<E>,
    k1: (Seq<char>, Seq<char>),
    k2: (Seq<char>, Seq<char>),
    u1: Seq<char>,
    u2: Seq<char>,
)
    ensures
        with_pool(with_pool(m, k1, u1), k2, u2).contains_key(k1),
        with_pool(with_pool(m, k1, u1), k2, u2).contains_key(k2),
        with_pool(with_pool(m, k1, u1), k2, u2)[k1] == with_pool(m, k1, u1)[k1],
        k1 == k2 ==> with_pool(with_pool(m, k1, u1), k2, u2) == with_pool(m, k1, u1),
        k1 != k2 ==> with_pool(with_pool(m, k1, u1), k2, u2)[k2] == with_pool(m, k2, u2)[k2],
{
}

} // verus!
