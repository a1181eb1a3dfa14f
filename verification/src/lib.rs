//! Relay library for an end-to-end encrypted messenger.
//!
//! The crate provides the server-side relay core — credential and session
//! records, a durable spool of pending envelopes, file metadata, the live
//! connection registry with per-user fanout, and the per-socket relay state
//! machine — together with the client-side session manager that performs
//! X25519 key agreement and AES-256-GCM framing of message bodies and file
//! blobs. All state-changing logic is specified and verified; calls into
//! outside cryptographic and channel primitives stand behind small trusted
//! wrappers whose contracts name what those primitives return.

pub mod client;
pub mod config;
pub mod crypto;
pub mod e2ee;
pub mod encoding;
pub mod errors;
pub mod handlers;
pub mod models;
pub mod registry;
pub mod session;
pub mod storage;
