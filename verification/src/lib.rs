//! Turns short-range radio broadcasts from battery-powered tags into
//! admit/deny decisions and plans the presence flag republished to a
//! home-automation backend.
//!
//! The core is the token-decode / anti-replay / policy-evaluation pipeline:
//! decoding a sealed radio payload into a device identity and timestamp,
//! guarding against replays and clock skew with persisted per-device state,
//! evaluating a weekly time-window access policy, and planning the
//! read-then-write reconciliation of the remote presence record. Every error
//! path defaults to deny/absent.

pub mod config;
pub mod decoder;
pub mod entity;
pub mod error;
pub mod hexconf;
pub mod pipeline;
pub mod policy;
pub mod replay;
pub mod strutil;
pub mod sync;
