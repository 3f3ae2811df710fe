//! Media factories.

pub mod context;
