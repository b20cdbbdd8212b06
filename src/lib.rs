//! A write-restricting filesystem sandbox built on Linux Landlock.
//!
//! The policy (which rights are denied by default and which file hierarchies
//! get them back) is computed and checked here; the kernel calls that commit
//! it go through the `landlock` crate.

pub mod access;
pub mod policy;
pub mod laws;
pub mod enforce;
pub mod ruleset;
