//! A small calendar/event backend core: an event store with an atomic
//! multi-table create pipeline, a per-request batch loader for satellite
//! records, and a publish/subscribe notification relay with a verified
//! message codec.

pub mod codec;
pub mod errors;
pub mod graphql;
pub mod kafka;
pub mod loader;
pub mod persistence;
