//! A recursive file-search library: given a list of root paths, a set of
//! name patterns and a set of entry-type filters, it decides which
//! filesystem entries match and in which order their paths are reported.
//!
//! The library is organised around plain values: the caller (a thin binary)
//! walks the filesystem and hands each traversal outcome to the pipeline as
//! a [`entry::WalkEvent`]; every decision made on those events is verified.


pub mod config;
pub mod entry;
pub mod filter;
pub mod pattern;
pub mod pipeline;
