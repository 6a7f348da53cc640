//! The domain model of a patch, and its mathematical view.
//!
//! The executable types (`Patch`, `Context`, `ContextHeader`, `PatchLine`)
//! are what the builder constructs and the applier consumes.  Each has a
//! ghost counterpart over `Seq` so that the contracts of the pipeline can
//! be stated purely mathematically.

use vstd::prelude::*;

verus! {

/// One typed line of a hunk, carrying its literal text.
#[derive(Debug)]
pub enum PatchLine {
    /// A line expected unchanged in both the original and the result.
    Context(String),
    /// A line that exists only in the result.
    Insert(String),
    /// A line expected in the original and omitted from the result.
    Delete(String),
}

/// The four numeric fields of a hunk's range marker.
///
/// The grammar stage yields the values exactly as written (one-based start
/// positions); the builder normalizes `file1_l` and `file2_l` to zero-based
/// indices before they enter a `Patch`.  Only `file1_l` is consulted by the
/// applier; the remaining fields are parsed and kept but not cross-checked
/// against the lines that follow.
#[derive(Clone, Copy, Debug, Default, PartialEq, Eq, Structural)]
pub struct ContextHeader {
    /// Start of the range in the original (old) text.
    pub file1_l: usize,
    /// Length of the range in the original (old) text.
    pub file1_s: usize,
    /// Start of the range in the resulting (new) text.
    pub file2_l: usize,
    /// Length of the range in the resulting (new) text.
    pub file2_s: usize,
}

/// One contiguous change region: a header and its typed lines, in the
/// order they appear in the patch text.
#[derive(Debug)]
pub struct Context {
    pub header: ContextHeader,
    pub data: Vec<PatchLine>,
}

/// The whole parsed patch: the two declared paths and the hunks in
/// document order.  The order is semantically required: the applier walks
/// the original text with a single forward cursor.
#[derive(Debug)]
pub struct Patch {
    pub input: String,
    pub output: String,
    pub contexts: Vec<Context>,
}

/// Ghost counterpart of `PatchLine`.
pub ghost enum LineModel {
    Context(Seq<char>),
    Insert(Seq<char>),
    Delete(Seq<char>),
}

/// Ghost counterpart of `Context`.
pub ghost struct HunkModel {
    pub header: ContextHeader,
    pub lines: Seq<LineModel>,
}

/// Ghost counterpart of `Patch`.
pub ghost struct PatchModel {
    pub input: Seq<char>,
    pub output: Seq<char>,
    pub hunks: Seq<HunkModel>,
}

impl View for PatchLine {
    type V = LineModel;

    open spec fn view(&self) -> LineModel {
        match self {
            PatchLine::Context(s) => LineModel::Context(s@),
            PatchLine::Insert(s) => LineModel::Insert(s@),
            PatchLine::Delete(s) => LineModel::Delete(s@),
        }
    }
}

impl DeepView for PatchLine {
    type V = LineModel;

    open spec fn deep_view(&self) -> LineModel {
        self.view()
    }
}

impl View for Context {
    type V = HunkModel;

    open spec fn view(&self) -> HunkModel {
        HunkModel { header: self.header, lines: self.data.deep_view() }
    }
}

impl DeepView for Context {
    type V = HunkModel;

    open spec fn deep_view(&self) -> HunkModel {
        self.view()
    }
}

impl View for Patch {
    type V = PatchModel;

    open spec fn view(&self) -> PatchModel {
        PatchModel {
            input: self.input@,
            output: self.output@,
            hunks: self.contexts.deep_view(),
        }
    }
}

} // verus!
