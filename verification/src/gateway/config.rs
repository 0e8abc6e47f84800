//! Gateway configuration: logical databases, their upstream servers, and the
//! clients allowed to use them.

use vstd::prelude::*;
use crate::keyed::lemma_map_of_entries_pointwise;
use crate::strmap::StrMap;
use crate::wire::{decimal, u64_decimal, str_eq};

verus! {

/// The default listen address.
pub open spec fn default_listen_spec() -> Seq<char> {
    "127.0.0.1:6432"@
}

/// The default upstream port.
pub const DEFAULT_PG_PORT: u16 = 5432;

/// An upstream server address.
#[derive(Debug, PartialEq, Eq)]
pub struct HostPort {
    pub host: String,
    pub port: u16,
}

/// Per-database pool limits (optional; not all enforced yet).
#[derive(Debug, PartialEq, Eq)]
pub struct PoolSettings {
    pub max_connections: Option<u32>,
    pub max_idle: Option<u32>,
}

/// Logical database: one primary and zero or more read replicas (replicas unused until routing exists).
#[derive(Debug, PartialEq, Eq)]
pub struct DatabaseCluster {
    pub primary: HostPort,
    pub replicas: Vec<HostPort>,
    pub pool: PoolSettings,
}

/// Allowed client identity; password reserved for future pooler-side auth.
#[derive(Debug, PartialEq, Eq)]
pub struct UserEntry {
    pub name: String,
    pub database: String,
    pub password: Option<String>,
    pub pool: PoolSettings,
}

/// Top-level gateway configuration.
#[derive(Debug)]
pub struct GatewayConfig {
    pub listen: String,
    pub databases: StrMap<DatabaseCluster>,
    pub users: Vec<UserEntry>,
}

impl Clone for HostPort {
    /// An equal address.
    fn clone(&self) -> (c: Self)
        ensures
            c == *self,
    {
        HostPort { host: self.host.clone(), port: self.port }
    }
}

impl Clone for PoolSettings {
    /// Equal limits.
    fn clone(&self) -> (c: Self)
        ensures
            c == *self,
    {
        PoolSettings { max_connections: self.max_connections, max_idle: self.max_idle }
    }
}

/// Two clusters with the same primary, the same replicas and the same limits.
pub open spec fn same_cluster(a: DatabaseCluster, b: DatabaseCluster) -> bool {
    a.primary == b.primary && a.replicas@ == b.replicas@ && a.pool == b.pool
}

impl Clone for DatabaseCluster {
    /// A cluster with the same primary, replicas and limits.
    fn clone(&self) -> (c: Self)
        ensures
            same_cluster(c, *self),
    {
        let replicas = self.replicas.clone();
        proof {
            assert forall|i: int| 0 <= i < replicas@.len() implies replicas@[i] == self.replicas@[i] by {
                assert(cloned::<HostPort>(self.replicas[i], replicas[i]));
            }
            assert(replicas@ =~= self.replicas@);
        }
        DatabaseCluster { primary: self.primary.clone(), replicas, pool: self.pool.clone() }
    }
}

impl Clone for UserEntry {
    /// An equal entry.
    fn clone(&self) -> (c: Self)
        ensures
            c == *self,
    {
        let password = match &self.password {
            Some(p) => Some(p.clone()),
            None => None,
        };
        UserEntry {
            name: self.name.clone(),
            database: self.database.clone(),
            password,
            pool: self.pool.clone(),
        }
    }
}

impl Clone for GatewayConfig {
    /// A configuration with the same listen address, the same databases
    /// (each with its own primary, replicas and limits) and the same users.
    fn clone(&self) -> (c: Self)
        ensures
            c.listen == self.listen,
            c.databases@.dom() == self.databases@.dom(),
            forall|d: Seq<char>|
                #[trigger] self.databases@.contains_key(d) ==> same_cluster(
                    c.databases@[d],
                    self.databases@[d],
                ),
            c.users@ == self.users@,
    {
        let databases = self.databases.clone();
        let users = self.users.clone();
        let _entries_before: usize = self.databases.len();
        let _entries_after: usize = databases.len();
        proof {
            let s1 = self.databases.entry_seq();
            let s2 = databases.entry_seq();
            let r = |x: DatabaseCluster, y: DatabaseCluster| same_cluster(y, x);
            assert forall|j: int| 0 <= j < s1.len() implies r(#[trigger] s1[j].1@, s2[j].1@) by {
                assert(cloned::<DatabaseCluster>(s1[j].1, s2[j].1));
            }
            assert forall|j: int| 0 <= j < s1.len() implies #[trigger] s1[j].0@ == s2[j].0@ by {
                assert(s2[j].0@ == s1[j].0@);
            }
            lemma_map_of_entries_pointwise(s1, s2, r);
            assert forall|i: int| 0 <= i < users@.len() implies users@[i] == self.users@[i] by {
                assert(cloned::<UserEntry>(self.users[i], users[i]));
            }
            assert(users@ =~= self.users@);
        }
        GatewayConfig { listen: self.listen.clone(), databases, users }
    }
}

/// Why a configuration is refused or a lookup fails.
#[derive(Debug, Clone, PartialEq, Eq)]
pub enum ConfigError {
    /// `databases` defines no database.
    NoDatabases,
    /// No database of this name is configured.
    UnknownDatabase(String),
}

impl View for DatabaseCluster {
    type V = DatabaseCluster;

    open spec fn view(&self) -> DatabaseCluster {
        *self
    }
}

impl Default for PoolSettings {
    fn default() -> (s: Self)
        ensures
            s.max_connections is None,
            s.max_idle is None,
    {
        PoolSettings { max_connections: None, max_idle: None }
    }
}

/// The `host:port` text of an upstream address.
pub open spec fn address_text(host: Seq<char>, port: u16) -> Seq<char> {
    host + ":"@ + decimal(port as nat)
}

impl HostPort {
    /// The `host:port` address to connect to.
    pub fn upstream_addr(&self) -> (s: String)
        ensures
            s@ == address_text(self.host@, self.port),
    {
        let mut s = self.host.clone();
        s.append(":");
        let port = u64_decimal(self.port as u64);
        s.append(port.as_str());
        s
    }
}

/// The default listen address.
pub fn default_listen() -> (s: String)
    ensures
        s@ == default_listen_spec(),
{
    String::from_str("127.0.0.1:6432")
}

/// The default upstream port.
pub fn default_port() -> (p: u16)
    ensures
        p == 5432,
{
    DEFAULT_PG_PORT
}

/// The cluster of the default database: a primary on the local host at the
/// default port, no replicas, no pool limits.
pub open spec fn is_default_cluster(c: DatabaseCluster) -> bool {
    &&& c.primary.host@ == "127.0.0.1"@
    &&& c.primary.port == 5432
    &&& c.replicas@.len() == 0
    &&& c.pool.max_connections is None
    &&& c.pool.max_idle is None
}

/// The databases of a configuration that names none: `postgres` on the local host.
pub fn default_databases() -> (m: StrMap<DatabaseCluster>)
    ensures
        m@.dom() == set!["postgres"@],
        is_default_cluster(m@["postgres"@]),
{
    let mut map = StrMap::new();
    let cluster = DatabaseCluster {
        primary: HostPort { host: String::from_str("127.0.0.1"), port: DEFAULT_PG_PORT },
        replicas: Vec::new(),
        pool: PoolSettings::default(),
    };
    map.insert(String::from_str("postgres"), cluster);
    proof {
        assert(map@.dom() =~= set!["postgres"@]);
    }
    map
}

impl Default for GatewayConfig {
    fn default() -> (c: Self)
        ensures
            c.listen@ == default_listen_spec(),
            c.databases@.dom() == set!["postgres"@],
            is_default_cluster(c.databases@["postgres"@]),
            c.users@.len() == 0,
    {
        GatewayConfig { listen: default_listen(), databases: default_databases(), users: Vec::new() }
    }
}

/// Whether some allow-list entry names `user` for `database`.
pub open spec fn user_listed(users: Seq<UserEntry>, user: Seq<char>, database: Seq<char>) -> bool {
    exists|i: int| 0 <= i < users.len() && users[i].name@ == user && users[i].database@ == database
}

impl GatewayConfig {
    /// A configuration must define at least one database.
    pub fn validate(&self) -> (r: Result<(), ConfigError>)
        ensures
            r is Err <==> self.databases@.dom() =~= Set::<Seq<char>>::empty(),
            r matches Err(e) ==> e is NoDatabases,
    {
        if self.databases.is_empty() {
            return Err(ConfigError::NoDatabases);
        }
        Ok(())
    }

    /// The cluster of `database`.
    pub fn cluster(&self, database: &str) -> (r: Result<&DatabaseCluster, ConfigError>)
        ensures
            r is Ok <==> self.databases@.contains_key(database@),
            r matches Ok(c) ==> *c == self.databases@[database@],
            r matches Err(e) ==> e matches ConfigError::UnknownDatabase(name) && name@ == database@,
    {
        match self.databases.get(database) {
            Some(cluster) => Ok(cluster),
            None => Err(ConfigError::UnknownDatabase(String::from_str(database))),
        }
    }

    /// The `host:port` of the primary of `database`.
    pub fn primary_upstream(&self, database: &str) -> (r: Result<String, ConfigError>)
        ensures
            r is Ok <==> self.databases@.contains_key(database@),
            r matches Ok(s) ==> s@ == address_text(
                self.databases@[database@].primary.host@,
                self.databases@[database@].primary.port,
            ),
            r matches Err(e) ==> e matches ConfigError::UnknownDatabase(name) && name@ == database@,
    {
        let cluster = self.cluster(database)?;
        Ok(cluster.primary.upstream_addr())
    }

    /// The read replicas of `database`.
    pub fn replicas(&self, database: &str) -> (r: Result<&[HostPort], ConfigError>)
        ensures
            r is Ok <==> self.databases@.contains_key(database@),
            r matches Ok(s) ==> s@ == self.databases@[database@].replicas@,
            r matches Err(e) ==> e matches ConfigError::UnknownDatabase(name) && name@ == database@,
    {
        let cluster = self.cluster(database)?;
        Ok(cluster.replicas.as_slice())
    }

    /// When `users` is empty, all client users are allowed (dev convenience);
    /// otherwise a client needs an entry naming both its user and its database.
    pub fn allows_client(&self, user: &str, database: &str) -> (b: bool)
        ensures
            b == (self.users@.len() == 0 || user_listed(self.users@, user@, database@)),
    {
        if self.users.len() == 0 {
            return true;
        }
        let mut i: usize = 0;
        while i < self.users.len()
            invariant
                i <= self.users@.len(),
                forall|j: int|
                    0 <= j < i ==> !(self.users@[j].name@ == user@ && self.users@[j].database@
                        == database@),
            decreases self.users@.len() - i,
        {
            let entry = &self.users[i];
            if str_eq(entry.name.as_str(), user) && str_eq(entry.database.as_str(), database) {
                return true;
            }
            i += 1;
        }
        false
    }
}

/// How the gateway is started, from its environment.
#[derive(Debug, Clone, PartialEq, Eq)]
pub enum Launch {
    /// Serve the configuration in this YAML file.
    ConfigFile(String),
    /// Relay every client to one upstream, listening on `listen`.
    PassThrough { listen: String, upstream: String },
    /// Serve the default configuration.
    Defaults,
}

/// The upstream a pass-through gateway relays to when none is named.
pub open spec fn default_upstream_spec() -> Seq<char> {
    "127.0.0.1:5432"@
}

/// The launch that the environment asks for: a configuration file when one
/// is named; else a pass-through relay when a listen address or an upstream
/// is named, the other taking its default (`127.0.0.1:6432`,
/// `127.0.0.1:5432`); else the default configuration.
pub fn launch_plan(config_file: Option<String>, listen: Option<String>, upstream: Option<String>) -> (l:
    Launch)
    ensures
        config_file matches Some(p) ==> (l matches Launch::ConfigFile(q) && q@ == p@),
        config_file is None && (listen is Some || upstream is Some) ==> (l matches Launch::PassThrough {
            listen: a,
            upstream: b,
        } && a@ == (match listen {
            Some(x) => x@,
            None => default_listen_spec(),
        }) && b@ == (match upstream {
            Some(x) => x@,
            None => default_upstream_spec(),
        })),
        config_file is None && listen is None && upstream is None ==> l is Defaults,
{
    if let Some(path) = config_file {
        return Launch::ConfigFile(path);
    }
    if listen.is_none() && upstream.is_none() {
        return Launch::Defaults;
    }
    let listen = match listen {
        Some(a) => a,
        None => default_listen(),
    };
    let upstream = match upstream {
        Some(b) => b,
        None => String::from_str("127.0.0.1:5432"),
    };
    Launch::PassThrough { listen, upstream }
}

} // verus!
