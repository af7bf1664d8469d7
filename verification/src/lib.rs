//! Verified decision logic of a GPU job coordinator.
pub mod attempt_report_store;
pub mod attempt_state;
pub mod checkpoint_manifest_store;
pub mod config;
pub mod failover;
pub mod gpu_attestation;
pub mod gpu_order;
pub mod grant_from_stored;
pub mod inventory;
pub mod inventory_rows;
pub mod inventory_store;
pub mod job_store;
pub mod lease_store;
pub mod matching;
pub mod serve;
pub mod session;
pub mod text;
pub mod table;
