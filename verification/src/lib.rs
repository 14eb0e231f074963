//! Embed large binary assets into a compiled program without the compile-time
//! cost of literal byte inclusion.
//!
//! The library works in two cooperating phases.  A one-time preparation phase
//! compresses each asset and synthesizes a linkable object artifact exporting
//! one data symbol; a per-use-site phase re-derives the same deterministic
//! identifier, reads the side-channel length record, and emits a reference to
//! the linked symbol (or, for targets without native linking, the compressed
//! bytes themselves).  At run time the compressed bytes are decompressed on
//! each access.
//!
//! The identifier derivation is the sole coordination key between the two
//! phases: both sides compute the same token from the asset's relative path
//! and modification time and meet in a shared output directory.

pub mod codec;
pub mod errors;
pub mod ident;
pub mod objfile;
pub mod target;
pub mod text;
pub mod usesite;
pub mod walker;

pub use codec::decompress;
pub use usesite::include_packed;
pub use walker::Config;
