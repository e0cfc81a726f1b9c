//! Session discovery and status inference for locally running AI coding-agent
//! CLI processes.
//!
//! The library reconciles live processes with on-disk transcript stores,
//! extracts the last meaningful conversational event from a transcript, and
//! classifies each session's current status, producing a deterministically
//! ordered list of sessions with summary counts.

pub mod agent;
pub mod codec;
pub mod matcher;
pub mod opencode;
pub mod process;
pub mod session;
pub mod signals;
pub mod status;
pub mod text;
pub mod timefmt;
