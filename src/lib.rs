//! Loading a file's bytes into a buffer sized by its metadata.
//!
//! The library holds the decisions of a load: how large the buffer is, which
//! bytes each read places where, whether another read is owed, and what the
//! caller gets back. Opening the file and issuing the reads is left to the
//! caller, which hands each outcome to a [`Loader`].

pub mod buffer;
pub mod loader;

pub use buffer::FillBuffer;
pub use loader::{LoadError, Loader, ReadPolicy};
