//! A verified engine for unified-diff-style patches.
//!
//! The crate parses a textual patch (an input-path line, an output-path
//! line, and a sequence of change hunks) into a domain model and applies
//! that model to an in-memory line sequence, checking at every step that
//! the source text matches what the patch expects.

pub mod apply;
pub mod builder;
pub mod error;
pub mod grammar;
pub mod laws;
pub mod model;
pub mod processor;

pub use error::Element;
pub use error::Error;
pub use error::Malformation;
pub use model::Context;
pub use model::ContextHeader;
pub use model::Patch;
pub use model::PatchLine;
pub use processor::PatchProcessor;
pub use processor::PatchResult;
