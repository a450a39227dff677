//! Where the cache is stored: in a remote service, or on the local disk.

pub mod backend;
pub mod fs;
pub mod local;
