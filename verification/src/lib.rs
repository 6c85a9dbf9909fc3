//! Core of a desktop chat client for a hosted generative-text service.
//!
//! The crate models the streaming completion controller: building a
//! wire-ready request history from conversation turns, deciding how each
//! attachment is resolved, accumulating a streamed response, coordinating
//! progress and terminal outcomes through a polled channel, and applying
//! drained events to the mutable message log.

pub mod message;
pub mod widgets;
pub mod history;
pub mod flower;
pub mod executor;
pub mod text;
pub mod diagnose;
pub mod assembler;
pub mod chat;
pub mod sessions;
