//! Master/registry server library for game servers.
//!
//! Game-hosting processes announce themselves periodically; clients query the
//! registry to discover servers. The registry deduplicates re-announcements,
//! evicts stale entries, and partitions entries into public and hidden
//! (token-addressable) visibility classes. A ban subsystem decides whether a
//! player identifier is currently banned from stored ban records.

pub mod bans;
pub mod ms_config;
pub mod requests;
pub mod responses;
pub mod server;
pub mod server_list;
pub mod uid;
pub mod wrappers;
