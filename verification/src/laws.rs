//! Laws of the pipeline: general properties of `spec_process` and
//! `spec_convert`, proved once and for all inputs.
//!
//! Each law is stated over the same spec functions that the executable
//! pipeline's contracts use, so it transfers directly to the executable
//! functions.

use vstd::prelude::*;

use crate::apply::spec_apply_hunks;
use crate::apply::spec_apply_lines;
use crate::apply::spec_copy_range;
use crate::apply::spec_process;
use crate::builder::spec_convert;
use crate::error::Error;
use crate::model::HunkModel;
use crate::model::LineModel;
use crate::model::PatchModel;

verus! {

/// The text a typed line carries.
pub open spec fn line_text(l: LineModel) -> Seq<char> {
    match l {
        LineModel::Context(t) => t,
        LineModel::Insert(t) => t,
        LineModel::Delete(t) => t,
    }
}

/// The texts of a line sequence, in order.
pub open spec fn line_texts(lines: Seq<LineModel>) -> Seq<Seq<char>> {
    lines.map_values(|l: LineModel| line_text(l))
}

/// Every line is an insertion.
pub open spec fn all_inserts(lines: Seq<LineModel>) -> bool {
    forall|i: int| 0 <= i < lines.len() ==> lines[i] is Insert
}

/// How many original lines the first `j` typed lines consume: one for
/// each context or deletion line, none for an insertion.
pub open spec fn spec_consumed(lines: Seq<LineModel>, j: int) -> int
    decreases j,
{
    if j <= 0 {
        0
    } else {
        spec_consumed(lines, j - 1) + (if lines[j - 1] is Insert {
            0int
        } else {
            1int
        })
    }
}

/// The lines in `[i, j)` replay cleanly against `text` when the hunk
/// starts at `k`: each is an insertion, or finds its exact text at its
/// cursor position.
pub open spec fn replays_clean(
    text: Seq<Seq<char>>,
    lines: Seq<LineModel>,
    i: int,
    j: int,
    k: int,
) -> bool {
    forall|m: int|
        i <= m < j ==> (lines[m] is Insert || (k + spec_consumed(lines, m) < text.len()
            && line_text(lines[m]) == text[k + spec_consumed(lines, m)]))
}

/// An in-range copy succeeds and appends exactly the copied slice.
pub proof fn lemma_copy_range_ok(text: Seq<Seq<char>>, from: int, to: int, out: Seq<Seq<char>>)
    requires
        0 <= from <= to <= text.len(),
    ensures
        spec_copy_range(text, from, to, out) == Ok::<Seq<Seq<char>>, Error>(
            out + text.subrange(from, to),
        ),
    decreases to - from,
{
    if from >= to {
        assert(out + text.subrange(from, to) =~= out);
    } else {
        lemma_copy_range_ok(text, from + 1, to, out.push(text[from]));
        assert(out.push(text[from]) + text.subrange(from + 1, to) =~= out + text.subrange(
            from,
            to,
        ));
    }
}

/// A copy that starts in range but reaches past the end fails at the
/// first missing index, the original's length.
pub proof fn lemma_copy_range_past_end(
    text: Seq<Seq<char>>,
    from: int,
    to: int,
    out: Seq<Seq<char>>,
)
    requires
        0 <= from <= text.len() < to,
    ensures
        spec_copy_range(text, from, to, out) == Err::<Seq<Seq<char>>, Error>(
            Error::AbruptInput(text.len() as usize),
        ),
    decreases to - from,
{
    if from < text.len() {
        lemma_copy_range_past_end(text, from + 1, to, out.push(text[from]));
    }
}

/// Replaying insertions only appends their texts and leaves the cursor
/// alone.
pub proof fn lemma_apply_lines_inserts(
    text: Seq<Seq<char>>,
    lines: Seq<LineModel>,
    j: int,
    cursor: int,
    out: Seq<Seq<char>>,
)
    requires
        0 <= j <= lines.len(),
        all_inserts(lines),
    ensures
        spec_apply_lines(text, lines, j, cursor, out) == Ok::<(Seq<Seq<char>>, int), Error>(
            (out + line_texts(lines.skip(j)), cursor),
        ),
    decreases lines.len() - j,
{
    if j == lines.len() {
        assert(out + line_texts(lines.skip(j)) =~= out);
    } else {
        let t = line_text(lines[j]);
        lemma_apply_lines_inserts(text, lines, j + 1, cursor, out.push(t));
        assert(out.push(t) + line_texts(lines.skip(j + 1)) =~= out + line_texts(lines.skip(j)));
    }
}

/// Replaying deletions whose texts match the original slice at the
/// cursor consumes that slice and appends nothing.
pub proof fn lemma_apply_lines_deletes(
    text: Seq<Seq<char>>,
    lines: Seq<LineModel>,
    j: int,
    cursor: int,
    out: Seq<Seq<char>>,
)
    requires
        0 <= j <= lines.len(),
        0 <= cursor,
        cursor + (lines.len() - j) <= text.len(),
        forall|i: int| j <= i < lines.len() ==> lines[i] == LineModel::Delete(text[cursor + (i - j)]),
    ensures
        spec_apply_lines(text, lines, j, cursor, out) == Ok::<(Seq<Seq<char>>, int), Error>(
            (out, cursor + (lines.len() - j)),
        ),
    decreases lines.len() - j,
{
    if j < lines.len() {
        assert(lines[j] == LineModel::Delete(text[cursor]));
        lemma_apply_lines_deletes(text, lines, j + 1, cursor + 1, out);
    }
}

/// A replay that runs cleanly up to line `j` and stumbles there fails
/// with the error that line `j` produces: exhaustion when its cursor is
/// past the end, otherwise a mismatch at its cursor.
pub proof fn lemma_replay_failure(
    text: Seq<Seq<char>>,
    lines: Seq<LineModel>,
    i: int,
    j: int,
    k: int,
    out: Seq<Seq<char>>,
)
    requires
        0 <= i <= j < lines.len(),
        0 <= k,
        k + spec_consumed(lines, j) <= usize::MAX,
        replays_clean(text, lines, i, j, k),
        !(lines[j] is Insert),
        k + spec_consumed(lines, j) >= text.len() || line_text(lines[j]) != text[k
            + spec_consumed(lines, j)],
    ensures
        spec_apply_lines(text, lines, i, k + spec_consumed(lines, i), out) == Err::<
            (Seq<Seq<char>>, int),
            Error,
        >(
            if k + spec_consumed(lines, j) >= text.len() {
                Error::AbruptInput((k + spec_consumed(lines, j)) as usize)
            } else {
                Error::PatchInputMismatch((k + spec_consumed(lines, j)) as usize)
            },
        ),
    decreases j - i,
{
    if i == j {
        assert(spec_consumed(lines, i) >= 0) by {
            lemma_consumed_nonneg(lines, i);
        }
    } else {
        assert(lines[i] is Insert || (k + spec_consumed(lines, i) < text.len() && line_text(
            lines[i],
        ) == text[k + spec_consumed(lines, i)]));
        lemma_consumed_nonneg(lines, i);
        match lines[i] {
            LineModel::Insert(t) => {
                lemma_replay_failure(text, lines, i + 1, j, k, out.push(t));
            },
            LineModel::Context(t) => {
                lemma_replay_failure(text, lines, i + 1, j, k, out.push(t));
            },
            LineModel::Delete(t) => {
                lemma_replay_failure(text, lines, i + 1, j, k, out);
            },
        }
    }
}

/// The consumed count never goes negative.
pub proof fn lemma_consumed_nonneg(lines: Seq<LineModel>, j: int)
    ensures
        spec_consumed(lines, j) >= 0,
    decreases j,
{
    if j > 0 {
        lemma_consumed_nonneg(lines, j - 1);
    }
}

/// Round-trip identity: a patch with no hunks maps every line sequence
/// to itself.
pub proof fn lemma_empty_patch_identity(text: Seq<Seq<char>>)
    ensures
        spec_process(text, Seq::<HunkModel>::empty()) == Ok::<Seq<Seq<char>>, Error>(text),
{
    lemma_copy_range_ok(text, 0, text.len() as int, Seq::<Seq<char>>::empty());
    assert(Seq::<Seq<char>>::empty() + text.subrange(0, text.len() as int) =~= text);
}

/// Pure insertion: a single hunk of insertions starting at `k` splices
/// their texts in at position `k` and keeps every original line, in
/// order; the result length grows by the number of insertions.
pub proof fn lemma_pure_insertion(text: Seq<Seq<char>>, hunk: HunkModel, k: int)
    requires
        hunk.header.file1_l == k,
        0 <= k <= text.len(),
        all_inserts(hunk.lines),
    ensures
        spec_process(text, seq![hunk]) == Ok::<Seq<Seq<char>>, Error>(
            text.subrange(0, k) + line_texts(hunk.lines) + text.skip(k),
        ),
{
    let hs = seq![hunk];
    assert(hs.len() == 1 && hs[0] == hunk);
    let empty = Seq::<Seq<char>>::empty();
    let pre = text.subrange(0, k);
    lemma_copy_range_ok(text, 0, k, empty);
    assert(empty + pre =~= pre);
    assert(spec_copy_range(text, 0, k, empty) == Ok::<Seq<Seq<char>>, Error>(pre));
    lemma_apply_lines_inserts(text, hunk.lines, 0, k, pre);
    assert(hunk.lines.skip(0) =~= hunk.lines);
    let mid = pre + line_texts(hunk.lines);
    assert(spec_apply_lines(text, hunk.lines, 0, k, pre) == Ok::<(Seq<Seq<char>>, int), Error>(
        (mid, k),
    ));
    assert(spec_apply_hunks(text, hs, 1, k, mid) == Ok::<(Seq<Seq<char>>, int), Error>((mid, k)));
    assert(spec_apply_hunks(text, hs, 0, 0, empty) == Ok::<(Seq<Seq<char>>, int), Error>(
        (mid, k),
    ));
    lemma_copy_range_ok(text, k, text.len() as int, mid);
    assert(text.subrange(k, text.len() as int) =~= text.skip(k));
    assert(spec_process(text, hs) == Ok::<Seq<Seq<char>>, Error>(mid + text.skip(k)));
}

/// Pure deletion: a single hunk of deletions whose texts equal the
/// original slice `text[k .. k+m]` removes exactly that slice.
pub proof fn lemma_pure_deletion(text: Seq<Seq<char>>, hunk: HunkModel, k: int, m: int)
    requires
        hunk.header.file1_l == k,
        m == hunk.lines.len(),
        0 <= k,
        k + m <= text.len(),
        forall|i: int| 0 <= i < m ==> hunk.lines[i] == LineModel::Delete(text[k + i]),
    ensures
        spec_process(text, seq![hunk]) == Ok::<Seq<Seq<char>>, Error>(
            text.subrange(0, k) + text.skip(k + m),
        ),
{
    let hs = seq![hunk];
    assert(hs.len() == 1 && hs[0] == hunk);
    let empty = Seq::<Seq<char>>::empty();
    let pre = text.subrange(0, k);
    lemma_copy_range_ok(text, 0, k, empty);
    assert(empty + pre =~= pre);
    assert(spec_copy_range(text, 0, k, empty) == Ok::<Seq<Seq<char>>, Error>(pre));
    lemma_apply_lines_deletes(text, hunk.lines, 0, k, pre);
    assert(spec_apply_lines(text, hunk.lines, 0, k, pre) == Ok::<(Seq<Seq<char>>, int), Error>(
        (pre, k + m),
    ));
    assert(spec_apply_hunks(text, hs, 1, k + m, pre) == Ok::<(Seq<Seq<char>>, int), Error>(
        (pre, k + m),
    ));
    assert(spec_apply_hunks(text, hs, 0, 0, empty) == Ok::<(Seq<Seq<char>>, int), Error>(
        (pre, k + m),
    ));
    lemma_copy_range_ok(text, k + m, text.len() as int, pre);
    assert(text.subrange(k + m, text.len() as int) =~= text.skip(k + m));
    assert(spec_process(text, hs) == Ok::<Seq<Seq<char>>, Error>(pre + text.skip(k + m)));
}

/// Mismatch detection: if the lines before `j` replay cleanly and line
/// `j` is a context or deletion whose text differs from the original at
/// its cursor position, applying the single hunk fails with a mismatch
/// at exactly that position, and no output is produced.
pub proof fn lemma_mismatch_detected(text: Seq<Seq<char>>, hunk: HunkModel, k: int, j: int)
    requires
        hunk.header.file1_l == k,
        0 <= k <= text.len(),
        text.len() <= usize::MAX,
        0 <= j < hunk.lines.len(),
        replays_clean(text, hunk.lines, 0, j, k),
        !(hunk.lines[j] is Insert),
        k + spec_consumed(hunk.lines, j) < text.len(),
        line_text(hunk.lines[j]) != text[k + spec_consumed(hunk.lines, j)],
    ensures
        spec_process(text, seq![hunk]) == Err::<Seq<Seq<char>>, Error>(
            Error::PatchInputMismatch((k + spec_consumed(hunk.lines, j)) as usize),
        ),
{
    let empty = Seq::<Seq<char>>::empty();
    lemma_copy_range_ok(text, 0, k, empty);
    lemma_replay_failure(text, hunk.lines, 0, j, k, empty + text.subrange(0, k));
}

/// Exhaustion detection at a hunk's start: a start index past the end
/// of the original fails with an abrupt-input error at the original's
/// length, the first index that was missing.
pub proof fn lemma_exhaustion_at_start(text: Seq<Seq<char>>, hunk: HunkModel)
    requires
        hunk.header.file1_l > text.len(),
    ensures
        spec_process(text, seq![hunk]) == Err::<Seq<Seq<char>>, Error>(
            Error::AbruptInput(text.len() as usize),
        ),
{
    lemma_copy_range_past_end(
        text,
        0,
        hunk.header.file1_l as int,
        Seq::<Seq<char>>::empty(),
    );
}

/// Exhaustion detection inside a hunk: if the lines before `j` replay
/// cleanly and line `j` is a context or deletion whose cursor position
/// is at or past the end of the original, applying the single hunk
/// fails with an abrupt-input error at that position.
pub proof fn lemma_exhaustion_in_lines(text: Seq<Seq<char>>, hunk: HunkModel, k: int, j: int)
    requires
        hunk.header.file1_l == k,
        0 <= k <= text.len(),
        text.len() <= usize::MAX,
        0 <= j < hunk.lines.len(),
        replays_clean(text, hunk.lines, 0, j, k),
        !(hunk.lines[j] is Insert),
        k + spec_consumed(hunk.lines, j) >= text.len(),
        k + spec_consumed(hunk.lines, j) <= usize::MAX,
    ensures
        spec_process(text, seq![hunk]) == Err::<Seq<Seq<char>>, Error>(
            Error::AbruptInput((k + spec_consumed(hunk.lines, j)) as usize),
        ),
{
    let empty = Seq::<Seq<char>>::empty();
    lemma_copy_range_ok(text, 0, k, empty);
    lemma_replay_failure(text, hunk.lines, 0, j, k, empty + text.subrange(0, k));
}

/// Idempotent parsing: the patch text alone determines the model, so two
/// successful conversions of the same text apply identically to any
/// original.
pub proof fn lemma_convert_deterministic(
    s: Seq<char>,
    text: Seq<Seq<char>>,
    p1: PatchModel,
    p2: PatchModel,
)
    requires
        spec_convert(s) == Ok::<PatchModel, Error>(p1),
        spec_convert(s) == Ok::<PatchModel, Error>(p2),
    ensures
        p1 == p2,
        spec_process(text, p1.hunks) == spec_process(text, p2.hunks),
{
}

} // verus!
