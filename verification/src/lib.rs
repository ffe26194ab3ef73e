//! Host and container resource introspection.
//!
//! The crate resolves the CPU and memory resources actually available to a
//! process: ground-truth hardware topology and memory totals on one side, and
//! the limits imposed by a control-group hierarchy (in either of its two
//! on-disk schema versions) on the other. Every resolver here is a pure
//! function of pseudo-file contents handed in by the caller; reading the
//! files themselves is left to the (unverified) front end.

pub mod classify;
pub mod hierarchy;
pub mod limits;
pub mod lit;
pub mod meminfo;
pub mod numbers;
pub mod snapshot;
pub mod text;
pub mod topology;
