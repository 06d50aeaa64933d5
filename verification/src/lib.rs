//! The mapping lifecycle of a growable, file-backed memory-mapped buffer.
//!
//! The crate decides; its caller performs. Opening the file, truncating it and
//! mapping it into memory are done by the caller, who reports what happened as
//! an [`Outcome`] and hands the mapped bytes in as a slice. Everything that can
//! be decided from lengths and bytes alone lives here and is verified: when a
//! mapping must be replaced, how the tracked length follows each resize, which
//! accesses are in bounds, and what a write leaves in the region.

pub mod error;
pub mod laws;
pub mod mapping;
pub mod page;
pub mod region;

pub use error::MmapError;
pub use mapping::{FileMmap, Mapping, Opened, Outcome, Phase, Plan};
pub use page::needs_remap;
