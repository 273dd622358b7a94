//! A dynamic-DNS update agent: salt generation, a retry policy with
//! exponential backoff, validation of a discovered IPv4 address, and the
//! salted SHA-512 proof that is submitted to the update endpoint.

pub mod salt;
pub mod retry;
pub mod address;
pub mod config;
pub mod cycle;
pub mod error;
pub mod payload;
