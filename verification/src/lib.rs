//! A project-context collector: walks directory trees (driven from outside),
//! filters files through layered rules — binary detection, directory pruning,
//! glob exclusion, an extension allowlist — and accumulates the included file
//! list together with extension statistics.
pub mod filters;
pub mod globs;
pub mod laws;
pub mod order;
pub mod text;
