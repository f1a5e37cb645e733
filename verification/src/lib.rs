//! Outbound connection establishment for a proxy: address screening against
//! internal ranges, a time-bounded resolution cache, and ordered dialing.

pub mod addr;
pub mod connector;
pub mod dns_cache;
pub mod error;
pub mod ip_guard;
pub mod metrics;
pub mod resolver;
pub mod target;
