//! Secure information relay: the outbound-kind allowlist, destination
//! policy, signing and anti-replay, and the gateway that enforces them.

pub mod allowlist;
pub mod gateway;
pub mod policy;
pub mod signing;
