//! The IP commitment registry.
pub mod types;
pub mod state;
