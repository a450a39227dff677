//! Cargo's build artifacts: what Cargo writes, where, and how it is moved.

pub mod build_args;
pub mod build_plan;
pub mod build_script;
pub mod cache;
pub mod dep_info;
pub mod dependency;
pub mod fingerprint;
pub mod glibc;
pub mod message_format;
pub mod metadata;
pub mod path;
pub mod plan_units;
pub mod profile;
pub mod rustc;
pub mod unit_graph;
pub mod units;
pub mod workspace;
