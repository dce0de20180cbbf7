//! A bridge from a push-based, callback-driven remote database client to
//! pull-based, per-frame event queues.
//!
//! A background thread delivers row changes, reducer completions and
//! connection signals through callbacks. This crate holds the rules that turn
//! those callbacks into typed events on one channel per event type: which
//! streams a table activates, which channel an event belongs to, what is
//! queued, and what is dropped once the consumer is gone.

pub mod channel;
pub mod config;
pub mod derive;
pub mod event;
pub mod index;
pub mod lifecycle;
pub mod plugin;
pub mod reducer;
pub mod registry;
pub mod table;
