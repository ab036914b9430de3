//! Verified pieces of the PostgreSQL wire protocol.

pub mod api;
pub mod codec;
pub mod error;
pub mod messages;
pub mod text;
