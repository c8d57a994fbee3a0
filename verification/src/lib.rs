//! Client-side core of the Quaddle chat gateway protocol.
//!
//! The gateway is the chat service's persistent event-streaming transport:
//! one full-duplex socket carrying JSON-tagged text frames. This crate holds
//! the protocol's decision logic, verified end to end:
//!
//! - [`json`]: a small JSON reader and writer, proved inverse on everything
//!   the codec writes;
//! - [`codec`]: the two closed message vocabularies and their frame encoding,
//!   with the round-trip laws;
//! - [`gateway`]: the upgrade-address normalization, the one-shot identify
//!   handshake, and the meaning of each received frame;
//! - [`supervisor`]: the connection lifecycle state machine, with the laws of
//!   everything a run of it publishes;
//! - [`model`]: users, messages, and snowflake identifiers;
//! - [`auth`], [`config`], [`channel_select`], [`messageview`], [`utils`]:
//!   the screen-side decision logic around the core.
//!
//! The socket work itself — dialing, reading, writing — is the embedding
//! application's: it performs what the supervisor asks and feeds back what
//! happened.

pub mod auth;
pub mod channel_select;
pub mod codec;
pub mod config;
pub mod gateway;
pub mod json;
pub mod messageview;
pub mod model;
pub mod supervisor;
pub mod utils;
