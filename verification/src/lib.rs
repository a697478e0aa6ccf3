//! Verified decision logic for the robot demonstration: the dispatch gate,
//! the lock-step bridge protocol, evidence records and benchmark receipts.

pub mod text;
pub mod gate;
pub mod protocol;
pub mod evidence;
pub mod session;
pub mod receipt;
pub mod commands;
pub mod history;
pub mod transcripts;
pub mod messages;
pub mod sampling;
