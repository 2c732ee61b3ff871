//! Inspect a Kubernetes namespace for workloads that no higher-level
//! controller owns, collect the container image references they run, and
//! resolve each reference into a registry host, a repository name and a tag.
//!
//! The parsing and filtering rules live here, each with a contract; the
//! cluster client and the process entry point live outside the library.

pub mod chars;
pub mod k8s;
pub mod registry;
