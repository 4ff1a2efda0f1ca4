//! Core of a local malware-signature scanner.
//!
//! The crate walks over a snapshot of a directory tree, computes a content
//! digest for every regular file, and checks each digest against a stored
//! set of known-malicious hashes, reporting matches and progress.  A
//! companion store type supports bulk refresh from an external hash feed,
//! and a scheduler module computes the next unattended refresh instant.

pub mod config;
pub mod digest;
pub mod language;
pub mod laws;
pub mod pages;
pub mod progress;
pub mod scanner;
pub mod schedule;
pub mod store;
pub mod utils;
