//! Persistence and publication core of a visual website builder.
//!
//! A website is an editable document (pages, styles, assets, settings) that
//! is stored as a main file plus one file per page, and later published as a
//! set of static files.  This crate holds the verified logic: the document
//! split/merge algorithm of the filesystem storage backend, the slug and
//! key-sorting rules that make the on-disk layout deterministic, the job
//! registry that tracks publish operations, and the connector registry that
//! lets backends be swapped behind one contract.  All file and network I/O
//! stays outside, in thin shells that execute the plans computed here.

pub mod config;
pub mod connector;
pub mod error;
pub mod fs_hosting;
pub mod fs_storage;
pub mod jobs;
pub mod json;
pub mod laws;
pub mod registry;
pub mod sys;
pub mod text;
pub mod traits;
pub mod website;
