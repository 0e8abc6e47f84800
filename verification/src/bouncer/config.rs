//! The pooler's settings and how command-line options override them.

use vstd::prelude::*;
use crate::gateway::config::{address_text, HostPort};

verus! {

/// When a server connection goes back to the pool.
#[derive(Debug, Clone, Copy, PartialEq, Eq)]
pub enum PoolMode {
    /// At the end of the client session.
    Session,
    /// At the end of each transaction.
    Transaction,
    /// After each statement.
    Statement,
}

/// The pooler's settings.
#[derive(Debug, Clone)]
pub struct Config {
    pub listen_addr: String,
    pub backend_host: String,
    pub backend_port: u16,
    pub backend_user: String,
    pub backend_password: String,
    pub pool_mode: PoolMode,
    pub default_pool_size: usize,
    pub max_client_conn: usize,
    pub worker_threads: usize,
    pub admin_database: String,
}

/// The command-line options that can override the settings.
#[derive(Debug, Clone)]
pub struct Cli {
    /// Path of the configuration file, if any.
    pub config: Option<String>,
    pub listen_addr: Option<String>,
    pub backend_host: Option<String>,
    pub backend_port: Option<u16>,
    pub pool_mode: Option<PoolMode>,
}

/// The default number of worker threads from the parallelism the system
/// reports (4 when it reports none), never fewer than 2.
pub fn worker_threads_from(available: Option<usize>) -> (n: usize)
    ensures
        n == (match available {
            Some(a) => if a >= 2 { a } else { 2 },
            None => 4,
        }),
{
    let n = match available {
        Some(a) => a,
        None => 4,
    };
    if n >= 2 {
        n
    } else {
        2
    }
}

impl Config {
    /// The default settings, with the given number of worker threads.
    pub fn with_worker_threads(worker_threads: usize) -> (c: Config)
        ensures
            c.listen_addr@ == "127.0.0.1:6432"@,
            c.backend_host@ == "127.0.0.1"@,
            c.backend_port == 5432,
            c.backend_user@ == "postgres"@,
            c.backend_password@ == "postgres"@,
            c.pool_mode == PoolMode::Transaction,
            c.default_pool_size == 10,
            c.max_client_conn == 200,
            c.worker_threads == worker_threads,
            c.admin_database@ == "pgbouncer"@,
    {
        Config {
            listen_addr: String::from_str("127.0.0.1:6432"),
            backend_host: String::from_str("127.0.0.1"),
            backend_port: 5432,
            backend_user: String::from_str("postgres"),
            backend_password: String::from_str("postgres"),
            pool_mode: PoolMode::Transaction,
            default_pool_size: 10,
            max_client_conn: 200,
            worker_threads,
            admin_database: String::from_str("pgbouncer"),
        }
    }

    /// The `host:port` address of the backend server.
    pub fn backend_addr(&self) -> (s: String)
        ensures
            s@ == address_text(self.backend_host@, self.backend_port),
    {
        let hp = HostPort { host: self.backend_host.clone(), port: self.backend_port };
        hp.upstream_addr()
    }

    /// Applies the options given on the command line; the others keep their value.
    pub fn apply_cli(&mut self, cli: &Cli)
        ensures
            final(self).listen_addr@ == (match cli.listen_addr {
                Some(v) => v@,
                None => old(self).listen_addr@,
            }),
            final(self).backend_host@ == (match cli.backend_host {
                Some(v) => v@,
                None => old(self).backend_host@,
            }),
            final(self).backend_port == (match cli.backend_port {
                Some(v) => v,
                None => old(self).backend_port,
            }),
            final(self).pool_mode == (match cli.pool_mode {
                Some(v) => v,
                None => old(self).pool_mode,
            }),
            final(self).backend_user == old(self).backend_user,
            final(self).backend_password == old(self).backend_password,
            final(self).default_pool_size == old(self).default_pool_size,
            final(self).max_client_conn == old(self).max_client_conn,
            final(self).worker_threads == old(self).worker_threads,
            final(self).admin_database == old(self).admin_database,
    {
        if let Some(v) = &cli.listen_addr {
            self.listen_addr = v.clone();
        }
        if let Some(v) = &cli.backend_host {
            self.backend_host = v.clone();
        }
        if let Some(v) = cli.backend_port {
            self.backend_port = v;
        }
        if let Some(v) = cli.pool_mode {
            self.pool_mode = v;
        }
    }
}

} // verus!
