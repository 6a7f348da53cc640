//! The applier stage: splicing a patch against the original lines.
//!
//! A single forward pass with one cursor into the original sequence.
//! For each hunk, in document order: the original lines before the
//! hunk's (zero-based) start are copied verbatim, then each typed line
//! is replayed — a context line must equal the original at the cursor
//! and is kept, a deletion line must equal it and is dropped, an
//! insertion line is appended without consuming the original.  After the
//! last hunk the rest of the original is copied.  A reference past the
//! end of the original is an abrupt-input error; a context or deletion
//! line that differs from the original is a mismatch error.  The whole
//! stage is specified by `spec_process` and the executable applier is
//! proved to return exactly that value.

use vstd::prelude::*;

use crate::error::Error;
use crate::model::HunkModel;
use crate::model::LineModel;
use crate::model::Patch;
use crate::model::PatchLine;

verus! {

/// Copies `text[from..to]` onto `out`; the first index at or past the
/// end of `text` is an abrupt-input error.  An empty range (also when
/// `to < from`) copies nothing.
pub open spec fn spec_copy_range(
    text: Seq<Seq<char>>,
    from: int,
    to: int,
    out: Seq<Seq<char>>,
) -> Result<Seq<Seq<char>>, Error>
    decreases to - from,
{
    if from >= to {
        Ok(out)
    } else if from >= text.len() {
        Err(Error::AbruptInput(from as usize))
    } else {
        spec_copy_range(text, from + 1, to, out.push(text[from]))
    }
}

/// Replays the hunk lines from position `j` on, with the cursor in the
/// original at `cursor` and the result built so far in `out`; returns
/// the grown result and the advanced cursor.
pub open spec fn spec_apply_lines(
    text: Seq<Seq<char>>,
    lines: Seq<LineModel>,
    j: int,
    cursor: int,
    out: Seq<Seq<char>>,
) -> Result<(Seq<Seq<char>>, int), Error>
    decreases lines.len() - j,
{
    if j < 0 || j >= lines.len() {
        Ok((out, cursor))
    } else {
        match lines[j] {
            LineModel::Context(t) => if cursor >= text.len() {
                Err(Error::AbruptInput(cursor as usize))
            } else if text[cursor] != t {
                Err(Error::PatchInputMismatch(cursor as usize))
            } else {
                spec_apply_lines(text, lines, j + 1, cursor + 1, out.push(t))
            },
            LineModel::Delete(t) => if cursor >= text.len() {
                Err(Error::AbruptInput(cursor as usize))
            } else if text[cursor] != t {
                Err(Error::PatchInputMismatch(cursor as usize))
            } else {
                spec_apply_lines(text, lines, j + 1, cursor + 1, out)
            },
            LineModel::Insert(t) => spec_apply_lines(text, lines, j + 1, cursor, out.push(t)),
        }
    }
}

/// Applies the hunks from position `h` on: for each, the copy phase up
/// to its start, then its lines, the cursor landing wherever the lines
/// left it.
pub open spec fn spec_apply_hunks(
    text: Seq<Seq<char>>,
    hunks: Seq<HunkModel>,
    h: int,
    cursor: int,
    out: Seq<Seq<char>>,
) -> Result<(Seq<Seq<char>>, int), Error>
    decreases hunks.len() - h,
{
    if h < 0 || h >= hunks.len() {
        Ok((out, cursor))
    } else {
        let start = hunks[h].header.file1_l as int;
        match spec_copy_range(text, cursor, start, out) {
            Err(e) => Err(e),
            Ok(out2) => match spec_apply_lines(text, hunks[h].lines, 0, start, out2) {
                Err(e) => Err(e),
                Ok((out3, cur3)) => spec_apply_hunks(text, hunks, h + 1, cur3, out3),
            },
        }
    }
}

/// The whole applier stage: all hunks from cursor zero, then the copy of
/// the remaining original lines.
pub open spec fn spec_process(text: Seq<Seq<char>>, hunks: Seq<HunkModel>) -> Result<
    Seq<Seq<char>>,
    Error,
> {
    match spec_apply_hunks(text, hunks, 0, 0, Seq::empty()) {
        Err(e) => Err(e),
        Ok((out, cursor)) => spec_copy_range(text, cursor, text.len() as int, out),
    }
}

/// The model of a line-sequence result.
pub open spec fn lines_res_view(r: Result<Vec<String>, Error>) -> Result<Seq<Seq<char>>, Error> {
    match r {
        Ok(v) => Ok(v.deep_view()),
        Err(e) => Err(e),
    }
}

/// A hunk whose copy phase succeeded fails exactly as its line phase
/// fails.
proof fn lemma_hunk_err(
    text: Seq<Seq<char>>,
    hunks: Seq<HunkModel>,
    h: int,
    cursor_h: int,
    out_h: Seq<Seq<char>>,
    start: int,
    out_l: Seq<Seq<char>>,
    e: Error,
)
    requires
        0 <= h < hunks.len(),
        start == hunks[h].header.file1_l as int,
        spec_copy_range(text, cursor_h, start, out_h) == Ok::<Seq<Seq<char>>, Error>(out_l),
        spec_apply_lines(text, hunks[h].lines, 0, start, out_l) == Err::<
            (Seq<Seq<char>>, int),
            Error,
        >(e),
    ensures
        spec_apply_hunks(text, hunks, h, cursor_h, out_h) == Err::<
            (Seq<Seq<char>>, int),
            Error,
        >(e),
{
}

/// Decides equality of two owned lines.
fn line_eq(a: &String, b: &String) -> (r: bool)
    ensures
        r == (a@ == b@),
{
    a.eq(b)
}

/// Applies `patch` to the original lines `text`, as `spec_process`
/// describes.
#[verifier::loop_isolation(false)]
pub fn apply(text: &Vec<String>, patch: &Patch) -> (r: Result<Vec<String>, Error>)
    ensures
        lines_res_view(r) == spec_process(text.deep_view(), patch@.hunks),
{
    let ghost tv = text.deep_view();
    let ghost hv = patch@.hunks;
    let ghost total = spec_apply_hunks(tv, hv, 0, 0, Seq::<Seq<char>>::empty());
    let mut out: Vec<String> = Vec::new();
    let mut cursor: usize = 0;
    let mut h: usize = 0;
    proof {
        assert(out.deep_view() =~= Seq::<Seq<char>>::empty());
        assert(tv.len() == text@.len());
    }
    while h < patch.contexts.len()
        invariant
            tv == text.deep_view(),
            hv == patch@.hunks,
            total == spec_apply_hunks(tv, hv, 0, 0, Seq::<Seq<char>>::empty()),
            tv.len() == text@.len(),
            hv.len() == patch.contexts@.len(),
            h <= patch.contexts.len(),
            spec_apply_hunks(tv, hv, h as int, cursor as int, out.deep_view()) == total,
        decreases patch.contexts.len() - h,
    {
        let ctx = &patch.contexts[h];
        proof {
            assert(hv[h as int] == patch.contexts@[h as int]@);
        }
        let target = ctx.header.file1_l;
        let ghost cursor_h: int = cursor as int;
        let ghost out_h = out.deep_view();
        proof {
            assert(spec_apply_hunks(tv, hv, h as int, cursor_h, out_h) == total);
            assert(target == hv[h as int].header.file1_l);
        }
        // Copy phase: original lines before the hunk's start.
        let mut i = cursor;
        while i < target
            invariant
                tv == text.deep_view(),
                tv.len() == text@.len(),
                cursor_h <= i,
                i <= target || i == cursor_h,
                spec_copy_range(tv, i as int, target as int, out.deep_view())
                    == spec_copy_range(tv, cursor_h, target as int, out_h),
            decreases target - i,
        {
            if i >= text.len() {
                proof {
                    assert(spec_copy_range(tv, i as int, target as int, out.deep_view())
                        == Err::<Seq<Seq<char>>, Error>(Error::AbruptInput(i)));
                    assert(spec_copy_range(tv, cursor_h, target as int, out_h)
                        == Err::<Seq<Seq<char>>, Error>(Error::AbruptInput(i)));
                    assert(spec_apply_hunks(tv, hv, h as int, cursor_h, out_h)
                        == Err::<(Seq<Seq<char>>, int), Error>(Error::AbruptInput(i)));
                }
                return Err(Error::AbruptInput(i));
            }
            let ghost out_dv = out.deep_view();
            out.push(text[i].clone());
            proof {
                assert(tv[i as int] == text@[i as int]@);
                assert(out.deep_view() =~= out_dv.push(tv[i as int]));
            }
            i += 1;
        }
        proof {
            assert(spec_copy_range(tv, cursor_h, target as int, out_h)
                == Ok::<Seq<Seq<char>>, Error>(out.deep_view()));
        }
        cursor = target;
        // Line phase: replay the hunk's typed lines.
        let ghost lv = hv[h as int].lines;
        let ghost out_l = out.deep_view();
        proof {
            assert(lv == ctx.data.deep_view());
            assert(lv.len() == ctx.data@.len());
        }
        let m = ctx.data.len();
        let mut j: usize = 0;
        while j < m
            invariant
                tv == text.deep_view(),
                tv.len() == text@.len(),
                lv == ctx.data.deep_view(),
                lv.len() == ctx.data@.len(),
                m == ctx.data@.len(),
                j <= m,
                target <= usize::MAX,
                spec_apply_lines(tv, lv, j as int, cursor as int, out.deep_view())
                    == spec_apply_lines(tv, lv, 0, target as int, out_l),
            decreases m - j,
        {
            proof {
                assert(lv[j as int] == ctx.data@[j as int]@);
            }
            match &ctx.data[j] {
                PatchLine::Context(t) => {
                    if cursor >= text.len() {
                        proof {
                            lemma_hunk_err(tv, hv, h as int, cursor_h, out_h, target as int, out_l,
                                Error::AbruptInput(cursor));
                        }
                        return Err(Error::AbruptInput(cursor));
                    }
                    proof {
                        assert(tv[cursor as int] == text@[cursor as int]@);
                    }
                    if !line_eq(&text[cursor], t) {
                        proof {
                            lemma_hunk_err(tv, hv, h as int, cursor_h, out_h, target as int, out_l,
                                Error::PatchInputMismatch(cursor));
                        }
                        return Err(Error::PatchInputMismatch(cursor));
                    }
                    let ghost out_dv = out.deep_view();
                    out.push(t.clone());
                    proof {
                        assert(out.deep_view() =~= out_dv.push(t@));
                    }
                    cursor = cursor + 1;
                },
                PatchLine::Delete(t) => {
                    if cursor >= text.len() {
                        proof {
                            lemma_hunk_err(tv, hv, h as int, cursor_h, out_h, target as int, out_l,
                                Error::AbruptInput(cursor));
                        }
                        return Err(Error::AbruptInput(cursor));
                    }
                    proof {
                        assert(tv[cursor as int] == text@[cursor as int]@);
                    }
                    if !line_eq(&text[cursor], t) {
                        proof {
                            lemma_hunk_err(tv, hv, h as int, cursor_h, out_h, target as int, out_l,
                                Error::PatchInputMismatch(cursor));
                        }
                        return Err(Error::PatchInputMismatch(cursor));
                    }
                    cursor = cursor + 1;
                },
                PatchLine::Insert(t) => {
                    let ghost out_dv = out.deep_view();
                    out.push(t.clone());
                    proof {
                        assert(out.deep_view() =~= out_dv.push(t@));
                    }
                },
            }
            j += 1;
        }
        proof {
            assert(spec_apply_lines(tv, lv, 0, target as int, out_l)
                == Ok::<(Seq<Seq<char>>, int), Error>((out.deep_view(), cursor as int)));
            assert(spec_apply_hunks(tv, hv, h as int, cursor_h, out_h)
                == spec_apply_hunks(tv, hv, h as int + 1, cursor as int, out.deep_view()));
        }
        h += 1;
    }
    proof {
        assert(total == Ok::<(Seq<Seq<char>>, int), Error>((out.deep_view(), cursor as int)));
    }
    // Trailing copy: the rest of the original.
    let n = text.len();
    let ghost cursor_f: int = cursor as int;
    let ghost out_f = out.deep_view();
    let mut i = cursor;
    while i < n
        invariant
            tv == text.deep_view(),
            tv.len() == text@.len(),
            n == text@.len(),
            cursor_f <= i,
            i <= n || i == cursor_f,
            spec_copy_range(tv, i as int, n as int, out.deep_view())
                == spec_copy_range(tv, cursor_f, n as int, out_f),
        decreases n - i,
    {
        let ghost out_dv = out.deep_view();
        out.push(text[i].clone());
        proof {
            assert(tv[i as int] == text@[i as int]@);
            assert(out.deep_view() =~= out_dv.push(tv[i as int]));
        }
        i += 1;
    }
    proof {
        assert(spec_copy_range(tv, cursor_f, n as int, out_f)
            == Ok::<Seq<Seq<char>>, Error>(out.deep_view()));
    }
    Ok(out)
}

} // verus!
