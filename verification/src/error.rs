//! The error taxonomy of the patch pipeline.
//!
//! Every failure is terminal and carries enough positional information for
//! a caller to report where the patch text or the source text diverged.

use vstd::prelude::*;

verus! {

/// A structurally required element of the patch text.
#[derive(Clone, Copy, Debug, PartialEq, Eq, Structural)]
pub enum Element {
    /// The line naming the path the patch reads from.
    InputPath,
    /// The line naming the path the patch writes to.
    OutputPath,
}

/// A placement or range rule that the line grammar alone cannot express.
#[derive(Clone, Copy, Debug, PartialEq, Eq, Structural)]
pub enum Malformation {
    /// A context, deletion or insertion line appeared before any hunk
    /// header: every hunk must be led by its header.
    LineOutsideHunk,
    /// A hunk header declared a start position of zero, which is not a
    /// valid one-based line number.
    ZeroStart,
}

/// The single error type of the pipeline.
///
/// Index payloads are zero-based: line positions in the patch text for the
/// parsing stages, line positions in the original text for the applying
/// stage.
#[derive(Clone, Copy, Debug, PartialEq, Eq, Structural)]
pub enum Error {
    /// The patch text violates the line grammar; the payload is the index
    /// of the offending patch line.
    Grammar(usize),
    /// A structurally required element is absent from the patch text.
    NotFound(Element),
    /// An element is present but violates a placement or range rule.
    MalformedPatch(Malformation),
    /// A numeric field of a hunk header does not fit a `usize`; the
    /// payload is the index of the header line.
    IntegerParse(usize),
    /// The original text is shorter than the patch requires; the payload
    /// is the first original line index that was missing.
    AbruptInput(usize),
    /// A context or deletion line differs from the original text; the
    /// payload is the original line index where they diverge.
    PatchInputMismatch(usize),
}

} // verus!
