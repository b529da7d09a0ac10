//! Backend rules of a desktop music player: which files of a scanned
//! directory become tracks, what the player publishes as its rich-presence
//! activity, and how the presence connection is established at startup.
//!
//! Everything here is a pure decision over plain values. Reading directories
//! and audio files, talking to the chat client and emitting GUI events are the
//! caller's part: it performs the action a function of this crate asks for and
//! hands the outcome back.

pub mod bootstrap;
pub mod cover;
pub mod drain;
pub mod duration;
pub mod presence;
pub mod scan;
