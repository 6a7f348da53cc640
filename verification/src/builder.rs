//! The builder stage: from the node sequence to the domain model.
//!
//! A single walk over the nodes in document order: a path declaration
//! sets the input or output path (the last one seen wins), a header node
//! closes the hunk being filled and opens a new one with its start
//! fields normalized to zero-based indices, and a typed line is appended
//! to the hunk being filled.  A typed line before any header, or a
//! header with a zero (not one-based) start, is a malformed patch; a
//! missing path declaration is reported once the walk is done.

use vstd::prelude::*;

use crate::error::Element;
use crate::error::Error;
use crate::error::Malformation;
use crate::grammar::Node;
use crate::grammar::NodeModel;
use crate::grammar::spec_parse;
use crate::model::Context;
use crate::model::ContextHeader;
use crate::model::HunkModel;
use crate::model::LineModel;
use crate::model::Patch;
use crate::model::PatchLine;
use crate::model::PatchModel;

verus! {

/// The builder's walking state: the paths seen so far, the hunks already
/// closed, and the hunk currently being filled.
#[verifier::ext_equal]
pub ghost struct BuildState {
    pub input: Option<Seq<char>>,
    pub output: Option<Seq<char>>,
    pub done: Seq<HunkModel>,
    pub filling: Option<HunkModel>,
}

/// The state before any node is seen.
pub open spec fn spec_init_state() -> BuildState {
    BuildState { input: None, output: None, done: Seq::empty(), filling: None }
}

/// All hunks of a state, the one being filled included.
pub open spec fn spec_closed(st: BuildState) -> Seq<HunkModel> {
    match st.filling {
        None => st.done,
        Some(h) => st.done.push(h),
    }
}

/// Appends a typed line to the hunk being filled; an error when no hunk
/// is open, since every hunk must be led by its header.
pub open spec fn spec_add_line(st: BuildState, l: LineModel) -> Result<BuildState, Error> {
    match st.filling {
        None => Err(Error::MalformedPatch(Malformation::LineOutsideHunk)),
        Some(h) => Ok(
            BuildState {
                filling: Some(HunkModel { header: h.header, lines: h.lines.push(l) }),
                ..st
            },
        ),
    }
}

/// One step of the walk.
pub open spec fn spec_build_step(st: BuildState, n: NodeModel) -> Result<BuildState, Error> {
    match n {
        NodeModel::File1(p) => Ok(BuildState { input: Some(p), ..st }),
        NodeModel::File2(p) => Ok(BuildState { output: Some(p), ..st }),
        NodeModel::Header(h) => {
            if h.file1_l == 0 || h.file2_l == 0 {
                Err(Error::MalformedPatch(Malformation::ZeroStart))
            } else {
                Ok(
                    BuildState {
                        done: spec_closed(st),
                        filling: Some(
                            HunkModel {
                                header: ContextHeader {
                                    file1_l: (h.file1_l - 1) as usize,
                                    file1_s: h.file1_s,
                                    file2_l: (h.file2_l - 1) as usize,
                                    file2_s: h.file2_s,
                                },
                                lines: Seq::empty(),
                            },
                        ),
                        ..st
                    },
                )
            }
        },
        NodeModel::Ctx(t) => spec_add_line(st, LineModel::Context(t)),
        NodeModel::Del(t) => spec_add_line(st, LineModel::Delete(t)),
        NodeModel::Ins(t) => spec_add_line(st, LineModel::Insert(t)),
    }
}

/// The walk from node `i` on, stopping at the first violation.
pub open spec fn spec_build_from(nodes: Seq<NodeModel>, i: int, st: BuildState) -> Result<
    BuildState,
    Error,
>
    decreases nodes.len() - i,
{
    if i < 0 || i >= nodes.len() {
        Ok(st)
    } else {
        match spec_build_step(st, nodes[i]) {
            Err(e) => Err(e),
            Ok(st2) => spec_build_from(nodes, i + 1, st2),
        }
    }
}

/// The whole builder stage: the walk, then the check that both paths
/// were declared (the input path is reported first).
pub open spec fn spec_build(nodes: Seq<NodeModel>) -> Result<PatchModel, Error> {
    match spec_build_from(nodes, 0, spec_init_state()) {
        Err(e) => Err(e),
        Ok(st) => match (st.input, st.output) {
            (Option::None, _) => Err(Error::NotFound(Element::InputPath)),
            (Option::Some(_), Option::None) => Err(Error::NotFound(Element::OutputPath)),
            (Option::Some(inp), Option::Some(out)) => Ok(
                PatchModel { input: inp, output: out, hunks: spec_closed(st) },
            ),
        },
    }
}

/// The parse and build stages combined, as a function of the patch text.
pub open spec fn spec_convert(s: Seq<char>) -> Result<PatchModel, Error> {
    match spec_parse(s) {
        Err(e) => Err(e),
        Ok(nodes) => spec_build(nodes),
    }
}

/// The model of a patch result: errors unchanged, patches by their view.
pub open spec fn patch_res_view(r: Result<Patch, Error>) -> Result<PatchModel, Error> {
    match r {
        Ok(p) => Ok(p@),
        Err(e) => Err(e),
    }
}

/// The model of an optional owned path.
pub open spec fn opt_str_view(o: Option<String>) -> Option<Seq<char>> {
    match o {
        Option::None => None,
        Option::Some(s) => Some(s@),
    }
}

/// The model of the hunk being filled.
pub open spec fn opt_ctx_view(o: Option<Context>) -> Option<HunkModel> {
    match o {
        Option::None => None,
        Option::Some(c) => Some(c@),
    }
}

/// Walks the nodes and builds the domain model, as `spec_build`
/// describes.
pub fn build(nodes: &Vec<Node>) -> (r: Result<Patch, Error>)
    ensures
        patch_res_view(r) == spec_build(nodes.deep_view()),
{
    let ghost ndv = nodes.deep_view();
    let mut input: Option<String> = None;
    let mut output: Option<String> = None;
    let mut done: Vec<Context> = Vec::new();
    let mut filling: Option<Context> = None;
    let mut i: usize = 0;
    proof {
        assert(done.deep_view() =~= Seq::<HunkModel>::empty());
        assert(BuildState {
            input: opt_str_view(input),
            output: opt_str_view(output),
            done: done.deep_view(),
            filling: opt_ctx_view(filling),
        } =~= spec_init_state());
    }
    while i < nodes.len()
        invariant
            ndv == nodes.deep_view(),
            ndv.len() == nodes@.len(),
            i <= nodes.len(),
            spec_build_from(
                ndv,
                i as int,
                BuildState {
                    input: opt_str_view(input),
                    output: opt_str_view(output),
                    done: done.deep_view(),
                    filling: opt_ctx_view(filling),
                },
            ) == spec_build_from(ndv, 0, spec_init_state()),
        decreases nodes.len() - i,
    {
        let ghost st = BuildState {
            input: opt_str_view(input),
            output: opt_str_view(output),
            done: done.deep_view(),
            filling: opt_ctx_view(filling),
        };
        proof {
            assert(ndv[i as int] == nodes@[i as int]@);
        }
        match &nodes[i] {
            Node::File1(s) => {
                input = Some(s.clone());
            },
            Node::File2(s) => {
                output = Some(s.clone());
            },
            Node::Header(h) => {
                if h.file1_l == 0 || h.file2_l == 0 {
                    return Err(Error::MalformedPatch(Malformation::ZeroStart));
                }
                let fresh = Context {
                    header: ContextHeader {
                        file1_l: h.file1_l - 1,
                        file1_s: h.file1_s,
                        file2_l: h.file2_l - 1,
                        file2_s: h.file2_s,
                    },
                    data: Vec::new(),
                };
                let ghost done_dv = done.deep_view();
                match filling {
                    Some(c) => {
                        done.push(c);
                        proof {
                            assert(done.deep_view() =~= done_dv.push(c@));
                        }
                    },
                    None => {},
                }
                proof {
                    assert(fresh@.lines =~= Seq::<LineModel>::empty());
                }
                filling = Some(fresh);
            },
            Node::Ctx(s) => {
                match filling {
                    None => {
                        return Err(Error::MalformedPatch(Malformation::LineOutsideHunk));
                    },
                    Some(mut c) => {
                        let ghost lines_dv = c.data.deep_view();
                        c.data.push(PatchLine::Context(s.clone()));
                        proof {
                            assert(c.data.deep_view() =~= lines_dv.push(
                                LineModel::Context(s@),
                            ));
                        }
                        filling = Some(c);
                    },
                }
            },
            Node::Del(s) => {
                match filling {
                    None => {
                        return Err(Error::MalformedPatch(Malformation::LineOutsideHunk));
                    },
                    Some(mut c) => {
                        let ghost lines_dv = c.data.deep_view();
                        c.data.push(PatchLine::Delete(s.clone()));
                        proof {
                            assert(c.data.deep_view() =~= lines_dv.push(LineModel::Delete(s@)));
                        }
                        filling = Some(c);
                    },
                }
            },
            Node::Ins(s) => {
                match filling {
                    None => {
                        return Err(Error::MalformedPatch(Malformation::LineOutsideHunk));
                    },
                    Some(mut c) => {
                        let ghost lines_dv = c.data.deep_view();
                        c.data.push(PatchLine::Insert(s.clone()));
                        proof {
                            assert(c.data.deep_view() =~= lines_dv.push(LineModel::Insert(s@)));
                        }
                        filling = Some(c);
                    },
                }
            },
        }
        proof {
            let st2 = BuildState {
                input: opt_str_view(input),
                output: opt_str_view(output),
                done: done.deep_view(),
                filling: opt_ctx_view(filling),
            };
            assert(spec_build_step(st, ndv[i as int]) == Ok::<BuildState, Error>(st2));
        }
        i += 1;
    }
    let ghost st_end = BuildState {
        input: opt_str_view(input),
        output: opt_str_view(output),
        done: done.deep_view(),
        filling: opt_ctx_view(filling),
    };
    let ghost done_dv = done.deep_view();
    match filling {
        Some(c) => {
            done.push(c);
            proof {
                assert(done.deep_view() =~= done_dv.push(c@));
            }
        },
        None => {},
    }
    proof {
        assert(done.deep_view() == spec_closed(st_end));
    }
    let inp = match input {
        None => {
            return Err(Error::NotFound(Element::InputPath));
        },
        Some(s) => s,
    };
    let out = match output {
        None => {
            return Err(Error::NotFound(Element::OutputPath));
        },
        Some(s) => s,
    };
    Ok(Patch { input: inp, output: out, contexts: done })
}

} // verus!
