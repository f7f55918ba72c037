//! Verified core of a long-lived, auto-reconnecting real-time data client.
//!
//! The crate models the client as pure, verified logic: typed envelopes and
//! subscription requests (`model`), a byte-level codec for the wire frames
//! (`codec`), the connection loop expressed as a state machine over events
//! and actions (`machine`), and the facade's command-issuing core (`client`).
//! An embedding runtime owns the transport and the task scheduling; it feeds
//! events to the state machine and performs the actions the machine returns.

pub mod client;
pub mod codec;
pub mod control;
pub mod machine;
pub mod model;
