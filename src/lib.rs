//! Measurement engine for inferring microarchitectural properties of a host
//! from timing: a surrogate clock made of a shared atomic counter, and the
//! pointer-chasing probes that read it.

pub mod clock;
pub mod chase;
pub mod benchmark;
pub mod sweep;
pub mod cache_size;
pub mod tlb_size;
pub mod cache_associativity;
pub mod page_size;
pub mod single_core;
pub mod session;
pub mod lifecycle;
pub mod config;
pub mod pending;
