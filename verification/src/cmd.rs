//! The commands: what each of them does, in which order, and when it refuses.

pub mod cache;
pub mod daemon;
pub mod debug;
pub mod dispatch;
pub mod flow;
pub mod upload;
pub mod wrapper;
