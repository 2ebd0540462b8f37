//! Agent package installer: turns an agent bundle (a local zip archive or a
//! git checkout) into a versioned, atomically activated installation.
//!
//! The on-disk layout is modeled by [`store::AgentStore`]; the pipeline in
//! [`manager::AgentManager`] derives a content identifier, extracts and
//! validates the bundle, places it in the store and swaps the `current`
//! pointer. A thin runner mirrors the store operations onto the real
//! filesystem.

pub mod archive;
pub mod errors;
pub mod hashing;
pub mod laws;
pub mod manager;
pub mod manifest;
pub mod models;
pub mod paths;
pub mod store;
pub mod tree;
