//! Core of a small tabletop-game companion service: a shared chat session
//! with a membership set and an append-only message history, a dice engine
//! for Fate and faced rolls, the bridge that rolls dice on behalf of a chat
//! user and logs the outcome, and flat character-sheet data.
//!
//! Transport, routing and persistence live outside this crate; the types
//! here exchange only plain values with that glue.

pub mod bridge;
pub mod character;
pub mod chat;
pub mod dice;
pub mod text;
