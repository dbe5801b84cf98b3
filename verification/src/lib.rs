//! Ownership rules of a sandbox node, with their proofs.

pub mod allocation;
pub mod allocation_api;
pub mod allocation_laws;
pub mod api;
pub mod create;
pub mod create_laws;
pub mod digest;
pub mod entry_laws;
pub mod fork;
pub mod handlers;
pub mod ident;
pub mod journal_laws;
pub mod json;
pub mod lease_laws;
pub mod leases;
pub mod listing;
pub mod models;
pub mod network;
pub mod paths;
pub mod pool;
pub mod pool_laws;
pub mod pool_runs;
pub mod reply_laws;
pub mod requests;
pub mod snapshots;
pub mod text;
pub mod text_laws;
pub mod text_map;
pub mod volume_laws;
pub mod volumes;
pub mod volume_runs;
pub mod warm_pool;
