//! Duplicate-file scanning: a content fingerprinter built on SHA-256, an
//! append-only directory table, and an index that groups files by fingerprint.

pub mod fingerprint;
pub mod scan;
