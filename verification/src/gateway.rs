//! A pass-through gateway with session pooling: its configuration, startup
//! packets, connection handling decisions and idle pools.

pub mod config;
pub mod startup_parse;
pub mod connection;
pub mod pool;
