//! License and session authentication engine: license lifecycle rules,
//! the in-memory session registry, the heartbeat protocol, download tokens
//! and the change-aware backup schedule.

pub mod backup;
pub mod chunk;
pub mod codec;
pub mod concurrent;
pub mod download;
pub mod error;
pub mod heartbeat;
pub mod ident;
pub mod license;
pub mod magic;
pub mod sessions;
pub mod text;
pub mod utils;
