//! The bookkeeping of a database connection pool: who owns how many permits,
//! which connections are idle, and what closing a pool has to wait for.

pub mod acquire;
pub mod close;
pub mod connect;
pub mod donation_barrier;
pub mod idle;
pub mod inner;
pub mod laws;
pub mod maintenance;
pub mod migration;
pub mod options;
pub mod permit;
pub mod promises;
pub mod semaphore;
pub mod state;
