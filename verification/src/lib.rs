//! A verified model of a managed-component loader that runs inside a native
//! host process.
//!
//! The host exposes a versioned control structure; from it the library builds
//! the exact call that binds a managed method to a native callable, and a
//! batch workflow stages every matching file of a source directory into a
//! trusted directory and asks the host to load it.  Everything that touches
//! foreign memory, the filesystem or a foreign function pointer lives outside
//! this crate; the crate states and proves what is decided and what is handed
//! across that boundary.

pub mod errors;
pub mod host;
pub mod loader;
pub mod utility;
