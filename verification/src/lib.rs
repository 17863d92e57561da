//! A guarded file-handle decorator for a multi-threaded storage engine.
//!
//! The crate models one open file as plain bytes plus a stream cursor
//! ([`file_state::FileState`]) and wraps it in [`locked_file::LockedFile`],
//! which forwards every byte-stream operation (sequential read and write,
//! seek, positioned read and write, metadata, durability sync, truncate or
//! extend) after consulting a per-handle locking policy.  The policy decision
//! itself lives in [`locked_file`]; acquiring the process-wide reader-writer
//! lock and talking to the real operating-system file are left to the
//! embedding program, which drives them from these verified decisions.

pub mod file_state;
pub mod laws;
pub mod locked_file;
pub mod semantics;

pub use file_state::{FileMetadata, FileState, SeekError, SeekFrom};
pub use locked_file::{shared_guard_wanted, LockedFile};
