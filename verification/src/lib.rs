//! Rules of a scanner for libraries of audio tracks.
//!
//! A scan walks a tree of files, has an outside analyzer estimate the
//! bitrate of each track, and classes each track against a threshold. Tracks
//! below the threshold can be replaced by a better copy, and the replacement
//! can be undone.
//!
//! This crate holds the rules of that work and proves them: which files
//! count, how verdicts are cached by content, how far a scan has come, which
//! steps replace a file and which bring it back. It reads no file, runs no
//! program and keeps no state of its own. The caller does these things and
//! tells the crate what it found; each module says where that line runs.
//!
//! - `audio`: one file, from the analyzer's output to verdict and class
//! - `cache`: verdicts by content hash, bounded in number
//! - `scan`: the walk, the progress, the lines of the report
//! - `remediation`: the states of a replacement and its steps on files
//! - `tagging`: the marker that a replaced file carries
//! - `fsplan`: plans of file operations and what they do
//! - `settings`, `sidecar`, `commands`: what a scan is run with, where the
//!   outside tools are found, and the small commands around a scan
//! - `json`, `duration`, `paths`, `text`, `types`: the values that the
//!   other modules work on

pub mod audio;
pub mod cache;
pub mod commands;
pub mod duration;
pub mod fsplan;
pub mod json;
pub mod paths;
pub mod remediation;
pub mod scan;
pub mod settings;
pub mod sidecar;
pub mod tagging;
pub mod text;
pub mod types;
