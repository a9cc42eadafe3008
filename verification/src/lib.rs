//! Core logic of a small container runtime: configuration parsing and
//! validation, cgroup naming and the files a cgroup is configured through,
//! and the plans that the process-level code carries out.

pub mod text;
pub mod config;
pub mod cgroups;
pub mod filesystem;
pub mod container;
pub mod cli;
