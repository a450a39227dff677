//! Verified core of `hurry`, a build cache for Cargo.

pub mod cache;
pub mod cargo;
pub mod cas;
pub mod ci;
pub mod client;
pub mod cmd;
pub mod dash;
pub mod hash;
pub mod log;
pub mod path;
pub mod sort;
pub mod stable_hash;
pub mod text;
pub mod vars;
pub mod version;
pub mod zstd;
