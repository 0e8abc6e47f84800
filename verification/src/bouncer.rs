//! A multi-client pooler: its configuration, the messages it reads and
//! writes, the server-connection pool, transaction tracking, the admin
//! console and backend authentication.

pub mod protocol;
pub mod startup;
pub mod config;
pub mod pool;
pub mod session;
pub mod stats;
pub mod admin;
pub mod crypto;
pub mod auth;
pub mod scram;
