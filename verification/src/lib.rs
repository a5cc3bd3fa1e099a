//! Verified core of a per-connection session handler for a multi-tenant IoT
//! protocol gateway.

pub mod auth_config;
pub mod cache;
pub mod kvseq;
pub mod registry;
pub mod session;
pub mod topic;
pub mod types;
