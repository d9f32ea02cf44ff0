//! Scheduling and proof logic of a storage-provider daemon that keeps files
//! for on-chain storage deals, proves on a fixed cadence that it still holds
//! them, and tracks what it owes each deal next.

pub mod types;
pub mod database_types;
pub mod window_utils;
pub mod proof_utils;
pub mod deal_tracker_db;
pub mod deal_tasks;
pub mod estuary_talker;
