//! Policy and classification engine of an `LD_PRELOAD` library that hides an
//! NVIDIA discrete GPU from a process's view of the operating system.
//!
//! The library decides, once per process, whether hiding is active
//! (allow/deny pattern lists matched against the process's executable
//! identity), discovers which DRM nodes and PCI addresses belong to the
//! target vendor, and classifies every intercepted path, library name or
//! directory entry as hidden or visible. The C-ABI interception itself
//! (symbol resolution, raw system calls, errno) lives outside this crate
//! and only consults the predicates defined here.

use vstd::prelude::*;

pub mod classify;
pub mod discovery;
pub mod engine;
pub mod glob;
pub mod intercept;
pub mod lists;
pub mod policy;
pub mod text;

verus! {

/// Errno value used by the interception layer when a request is denied:
/// "no such file or directory".
pub const DENIAL_ERRNO: i32 = 2;

} // verus!
