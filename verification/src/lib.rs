//! Synchronisation of a local set of static assets with a remote content
//! store: content-addressed diffing against a remote snapshot, selection of
//! encodings, chunked transfer with order-preserving reassembly, and the
//! accounting of the permits that bound concurrent file loads and remote calls.
//!
//! Beside it stand the decisions of a deployment that need no network: what
//! the options of the command ask for, where a deployed canister is reached,
//! and what the build of a Rust canister is made of.
//!
//! The library decides and counts; it reads no file and calls no remote
//! store. Its caller does both and reports back what came of it.

pub mod builders;
pub mod chunks;
pub mod content;
pub mod deploy;
pub mod digest;
pub mod keyed;
pub mod plumbing;
pub mod progress;
pub mod project;
pub mod semaphores;
pub mod snapshot;
pub mod text;
pub mod upload;
pub mod urls;
