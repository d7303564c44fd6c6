//! Mirrors a listener's "now playing" track into a chat status.
//!
//! The crate holds the decisions of the service: how a poll of the recent
//! tracks turns into change events, which worker runs for which user, and what
//! the store of linked users holds. Network and file access belong to the
//! program that drives it.

pub mod commands;
pub mod db;
pub mod lastfm;
pub mod oauth;
pub mod registry;
pub mod request;
pub mod slack;
pub mod startup;
pub mod supervisor;
pub mod text;
pub mod vault;
pub mod worker;
