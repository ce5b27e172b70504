//! Verified core of a small command-line file downloader.
//!
//! One invocation of the program performs a single HTTP GET and streams the
//! response body into a local file. Everything the program decides — how the
//! destination filename is resolved from the URL, which response statuses
//! permit the download, and how the progress counter tracks the bytes written
//! — lives here with a contract. The surrounding I/O (argument parsing, the
//! HTTP request, file writes, the progress display) is ordinary Rust around
//! this library.

pub mod error;
pub mod filename;
pub mod progress;
pub mod status;
