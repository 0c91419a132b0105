//! Generation of versioned patch manifests.
//!
//! A manifest lists, for every released patch version, the files of that
//! patch with their relative path, content digest, size and platform tag.
//! This crate holds the rules of manifest generation: path filtering,
//! content hashing, platform classification, the ordering of a file list and
//! the bookkeeping of versions and dependencies when a patch is merged into a
//! manifest. Reading directories and files, asking the operator and storing
//! the manifest are left to the caller, whom [`generator::Generator::step`]
//! tells what to do next, one file at a time.
//!
//! Glob matching is done by the `globset` crate and hashing by the `blake3`
//! crate. What the library takes for granted of them is stated in [`globs`]
//! and [`digest`]; everything else is proved.

pub mod digest;
pub mod generator;
pub mod globs;
pub mod manifest;
pub mod order;
pub mod platform;
pub mod separators;
