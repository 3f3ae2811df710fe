//! Medias.

pub mod context;
pub mod laws;
pub mod state_laws;
pub mod stream;
