//! Storage core of a file synchronisation tool: fixed-size chunking, content
//! digests, path containment under a storage root, crash-atomic writes and a
//! deduplicating content-addressed object store.
//!
//! The library performs no filesystem access itself. A write is a state
//! machine (`storage::AtomicWrite`) that names the next filesystem action;
//! the caller performs it and hands the outcome back. Checks and decisions
//! (`Storage::check_path`, `Cas::put_object`, `Cas::get_object`) take what
//! the caller observed on disk as arguments.

pub mod hash;
pub mod chunk;
pub mod path;
pub mod storage;
pub mod cas;
