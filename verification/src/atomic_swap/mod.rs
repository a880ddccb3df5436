//! The atomic-swap marketplace for committed IP.
pub mod types;
pub mod state;
