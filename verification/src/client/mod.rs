//! Clients.

pub mod basic_client;
pub mod context;
pub mod interleaved;
pub mod laws;
pub mod session_laws;
pub mod steps;
pub mod task;
pub mod task_laws;
