//! Brings a folder of managed files in line with a manifest.
//!
//! A manifest lists files that are to be present, each with its source and,
//! if wanted, the digest of its content, and files that are to be absent.
//! The library reads the manifest, decides for every entry what has to be
//! done, keeps at most eight entries under way at a time, counts the
//! outcomes and sorts the entries into the final report. It touches neither
//! files nor the network: its caller carries out each operation that a run
//! asks for and reports what came of it.

pub mod digest;
pub mod entry;
pub mod manifest;
pub mod progress;
pub mod report;
pub mod resolve;
pub mod sync;
pub mod text;
pub mod ui;
