//! A multi-tenant gateway core in front of many independent embedded SQL
//! databases.
//!
//! A client addresses a `(project, database)` pair and issues ad-hoc SQL,
//! named SQL drawn from a per-database policy, or administers that policy.
//! The core verified here is the dispatch and execution pipeline between
//! the HTTP boundary and the embedded engine:
//!
//! - [`tokens`]: the identifier grammar and database addresses;
//! - [`values`]: the wire-level value model and the parameter bridge;
//! - [`rows`]: result rows as ordered column-name maps;
//! - [`policy`]: the catalog of named SQL and its round-trip law;
//! - [`errors`]: the failure taxonomy and its wire envelope;
//! - [`sqlite`]: the narrow, trusted interface to the engine;
//! - [`persistence`]: the per-database façade over one connection;
//! - [`worker`]: the bounded mailbox, cancellation generations, dispatch;
//! - [`router`]: the process-wide address-to-worker map.
//!
//! The runtime around the core — HTTP framing, JSON parsing, threads and
//! reply channels — stays outside and consumes these pieces.

pub mod errors;
pub mod persistence;
pub mod policy;
pub mod router;
pub mod rows;
pub mod sqlite;
pub mod tokens;
pub mod values;
pub mod worker;
