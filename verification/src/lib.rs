//! The download and integrity engine of a game launcher: the decisions of a
//! resumable HTTP transfer with progress accounting, and SHA-256 checks of
//! what was downloaded.
//!
//! The library performs no I/O. A caller sends the request, reads the stream
//! and writes the file, and tells the engine what happened.

pub mod digest;
pub mod download_manager;
pub mod file_manager;
pub mod settings;
pub mod text;
pub mod types;
