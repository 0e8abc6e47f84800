//! PostgreSQL wire-protocol building blocks, a pass-through gateway and a
//! transaction-pooling bouncer: the byte formats, decisions and bookkeeping,
//! verified against their specifications.

pub mod bouncer;
pub mod gateway;
pub mod keyed;
pub mod protocol;
pub mod strmap;
pub mod text;
pub mod wire;

pub use gateway::config::{DatabaseCluster, GatewayConfig, HostPort, PoolSettings, UserEntry};
pub use gateway::connection::StartupIdentity;
pub use gateway::pool::{PoolKey, PoolManager, UserDatabasePool};
pub use gateway::startup_parse::{build_startup_packet, parse_startup_params};
