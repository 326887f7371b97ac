//! An in-memory overlay over the latest chain state.

pub mod abi;
pub mod account;
pub mod backend;
pub mod bridge;
pub mod commit;
pub mod commit_laws;
pub mod data_laws;
pub mod db;
pub mod error;
pub mod hashing;
pub mod laws;
pub mod primitives;
pub mod provider;
pub mod search;
pub mod steps;
pub mod sync_db;
pub mod wide_map;
