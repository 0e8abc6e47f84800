//! Counters shared by all sessions, and a consistent copy of them for display.

use vstd::prelude::*;
use std::sync::atomic::AtomicU64;
use std::sync::atomic::Ordering;

verus! {

/// Global counters, updated concurrently by the sessions.
#[derive(Default)]
pub struct Stats {
    pub client_connections: AtomicU64,
    pub server_connections: AtomicU64,
    pub queries: AtomicU64,
    pub transactions: AtomicU64,
    pub pooler_errors: AtomicU64,
}

/// The counters' values at one moment.
#[derive(Debug, Clone, Copy)]
pub struct StatsSnapshot {
    pub client_connections: u64,
    pub server_connections: u64,
    pub queries: u64,
    pub transactions: u64,
    pub pooler_errors: u64,
}

/// Counters of one pool.
#[derive(Default)]
pub struct PoolStats {
    pub active: AtomicU64,
    pub idle: AtomicU64,
    pub waiting: AtomicU64,
}

impl Stats {
    /// Reads every counter once.  Each value is whatever its counter holds
    /// at that load; other sessions update the counters meanwhile, so no
    /// value is claimed.
    pub fn snapshot(&self) -> StatsSnapshot {
        StatsSnapshot {
            client_connections: self.client_connections.load(Ordering::Relaxed),
            server_connections: self.server_connections.load(Ordering::Relaxed),
            queries: self.queries.load(Ordering::Relaxed),
            transactions: self.transactions.load(Ordering::Relaxed),
            pooler_errors: self.pooler_errors.load(Ordering::Relaxed),
        }
    }
}

} // verus!
