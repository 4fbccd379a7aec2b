//! Loader support for precompiled bytecode modules.
//!
//! A release of the framework is a named snapshot of compiled modules. Each
//! module travels as a blob: the serialized bytes of one compiled module. An
//! outside fetcher resolves a release name to its blobs, and an outside
//! decoder turns one blob into its structured in-memory form; both are black
//! boxes to this crate. What this crate owns and verifies is the logic around
//! them: the two-tier store that keeps every blob positionally aligned with
//! its decoded module, and the rule that tells compiled-module files apart
//! from other files by their path.

pub mod paths;
pub mod store;
