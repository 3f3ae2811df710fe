//! The server.

pub mod context;
pub mod laws;
pub mod mount_laws;
pub mod mounts;
pub mod session;
pub mod session_laws;
