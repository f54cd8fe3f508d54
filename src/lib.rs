//! Codec and dispatch core for driving UWB controllers over UCI.
//!
//! The crate holds the pure parts of the bridge between a session-oriented
//! control API and the UCI wire protocol: a TLV codec for configuration
//! parameters, a fixed-width phase-list codec, a resolver for multicast
//! controlee lists, and a single-instance dispatcher that maps chip ids to
//! per-chip managers.
pub mod command;
pub mod controlee;
pub mod dispatcher;
pub mod error;
pub mod phase_list;
pub mod tlv;
