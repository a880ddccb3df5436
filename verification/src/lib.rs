//! Verified core of the AtomicIP contracts: an IP commitment registry and an
//! atomic-swap marketplace for the committed IP.
pub mod common;
pub mod atomic_swap;
pub mod crypto;
pub mod ip_registry;
