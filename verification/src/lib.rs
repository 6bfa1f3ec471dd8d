//! Decisions behind organising a photo export: which date a file gets, where it
//! is filed and under which name, how the results are tallied, and what is
//! written back into the file's metadata.
//!
//! Whatever touches the world is left to the caller. Where a decision depends on
//! what is on disk or on what a program prints, the library asks a question and
//! goes on from the answer.

pub mod dating;
pub mod dating_laws;
pub mod embed;
pub mod exif;
pub mod media;
pub mod naming;
pub mod naming_laws;
pub mod number;
pub mod outside;
pub mod sidecar;
pub mod sorting;
pub mod source;
pub mod text;
