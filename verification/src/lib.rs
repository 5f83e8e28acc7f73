//! Core of a traffic-driven fleet autoscaler.
//!
//! Worker machines report packet counts through heartbeats; a controller
//! keeps a registry of machines, evicts idle ones (never dropping below one
//! running machine) and starts stopped ones when the observed packet rate
//! calls for more capacity. This crate holds the verified state and policy
//! logic; transport, capture and the lifecycle provider live outside it.

pub mod config;
pub mod laws;
pub mod messages;
pub mod registry;
pub mod response;
pub mod scan;
