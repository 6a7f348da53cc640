//! The pipeline entry points: parse and build a patch, then apply it.

use vstd::prelude::*;

use crate::apply;
use crate::apply::lines_res_view;
use crate::apply::spec_process;
use crate::builder;
use crate::builder::patch_res_view;
use crate::builder::spec_convert;
use crate::error::Error;
use crate::grammar;
use crate::model::Patch;
use crate::model::PatchModel;

verus! {

/// The result type of the pipeline.
pub type PatchResult<T> = Result<T, Error>;

/// Holds an original line sequence together with a parsed patch, ready
/// to be applied.
pub struct PatchProcessor {
    /// The original lines the patch is replayed against.
    pub text: Vec<String>,
    /// The parsed patch.
    pub patch: Patch,
}

/// Ghost counterpart of `PatchProcessor`.
pub ghost struct ProcessorModel {
    pub text: Seq<Seq<char>>,
    pub patch: PatchModel,
}

impl View for PatchProcessor {
    type V = ProcessorModel;

    open spec fn view(&self) -> ProcessorModel {
        ProcessorModel { text: self.text.deep_view(), patch: self.patch@ }
    }
}

impl PatchProcessor {
    /// Pairs an original line sequence with an already parsed patch.
    pub fn new(text: Vec<String>, patch: Patch) -> (r: Self)
        ensures
            r.text == text,
            r.patch == patch,
    {
        PatchProcessor { text, patch }
    }

    /// Parses and builds the patch text and pairs the resulting model
    /// with the original lines; fails exactly as `convert` fails.
    pub fn converted(text: Vec<String>, patch: &str) -> (r: PatchResult<Self>)
        ensures
            match (r, spec_convert(patch@)) {
                (Ok(pp), Ok(pm)) => pp.text == text && pp.patch@ == pm,
                (Err(e), Err(em)) => e == em,
                _ => false,
            },
    {
        match Self::convert(patch) {
            Err(e) => Err(e),
            Ok(p) => Ok(PatchProcessor { text, patch: p }),
        }
    }

    /// Parse and build combined: the domain model of the patch text, as
    /// `spec_convert` describes, or the first error of either stage.
    pub fn convert(patch: &str) -> (r: PatchResult<Patch>)
        ensures
            patch_res_view(r) == spec_convert(patch@),
    {
        match grammar::parse(patch) {
            Err(e) => Err(e),
            Ok(nodes) => builder::build(&nodes),
        }
    }

    /// Applies the held patch to the held original lines, as
    /// `spec_process` describes.
    pub fn process(&self) -> (r: PatchResult<Vec<String>>)
        ensures
            lines_res_view(r) == spec_process(self@.text, self@.patch.hunks),
    {
        apply::apply(&self.text, &self.patch)
    }
}

} // verus!
