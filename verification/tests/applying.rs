use patch_rs::Context;
use patch_rs::ContextHeader;
use patch_rs::Error;
use patch_rs::Patch;
use patch_rs::PatchLine;
use patch_rs::PatchProcessor;

fn lines(items: &[&str]) -> Vec<String> {
    items.iter().map(|s| s.to_string()).collect()
}

fn patch_with(contexts: Vec<Context>) -> Patch {
    Patch {
        input: "old.txt".to_string(),
        output: "new.txt".to_string(),
        contexts,
    }
}

fn hunk(old_start: usize, data: Vec<PatchLine>) -> Context {
    Context {
        header: ContextHeader {
            file1_l: old_start,
            file1_s: 0,
            file2_l: old_start,
            file2_s: 0,
        },
        data,
    }
}

#[test]
fn empty_patch_leaves_text_unchanged() {
    let original = lines(&["a", "b", "c"]);
    let processor = PatchProcessor::new(original.clone(), patch_with(vec![]));
    assert_eq!(processor.process().unwrap(), original);
}

#[test]
fn empty_patch_on_empty_text() {
    let processor = PatchProcessor::new(Vec::new(), patch_with(vec![]));
    assert_eq!(processor.process().unwrap(), Vec::<String>::new());
}

#[test]
fn insertion_splices_in_new_lines() {
    let original = lines(&["a", "b", "c"]);
    let patch = patch_with(vec![hunk(
        1,
        vec![
            PatchLine::Insert("X".to_string()),
            PatchLine::Insert("Y".to_string()),
        ],
    )]);
    let processor = PatchProcessor::new(original, patch);
    assert_eq!(processor.process().unwrap(), lines(&["a", "X", "Y", "b", "c"]));
}

#[test]
fn insertion_at_end_appends() {
    let original = lines(&["a", "b"]);
    let patch = patch_with(vec![hunk(2, vec![PatchLine::Insert("X".to_string())])]);
    let processor = PatchProcessor::new(original, patch);
    assert_eq!(processor.process().unwrap(), lines(&["a", "b", "X"]));
}

#[test]
fn deletion_removes_matching_lines() {
    let original = lines(&["a", "b", "c", "d"]);
    let patch = patch_with(vec![hunk(
        1,
        vec![
            PatchLine::Delete("b".to_string()),
            PatchLine::Delete("c".to_string()),
        ],
    )]);
    let processor = PatchProcessor::new(original, patch);
    assert_eq!(processor.process().unwrap(), lines(&["a", "d"]));
}

#[test]
fn context_mismatch_is_reported_at_its_index() {
    let original = lines(&["a", "b", "c"]);
    let patch = patch_with(vec![hunk(
        0,
        vec![
            PatchLine::Context("a".to_string()),
            PatchLine::Context("wrong".to_string()),
        ],
    )]);
    let processor = PatchProcessor::new(original, patch);
    assert_eq!(processor.process(), Err(Error::PatchInputMismatch(1)));
}

#[test]
fn deletion_mismatch_is_reported_at_its_index() {
    let original = lines(&["a", "b"]);
    let patch = patch_with(vec![hunk(0, vec![PatchLine::Delete("b".to_string())])]);
    let processor = PatchProcessor::new(original, patch);
    assert_eq!(processor.process(), Err(Error::PatchInputMismatch(0)));
}

#[test]
fn start_past_end_is_abrupt_input() {
    let original = lines(&["a", "b"]);
    let patch = patch_with(vec![hunk(10, vec![])]);
    let processor = PatchProcessor::new(original, patch);
    assert_eq!(processor.process(), Err(Error::AbruptInput(2)));
}

#[test]
fn deletion_past_end_is_abrupt_input() {
    let original = lines(&["a"]);
    let patch = patch_with(vec![hunk(
        1,
        vec![PatchLine::Delete("b".to_string())],
    )]);
    let processor = PatchProcessor::new(original, patch);
    assert_eq!(processor.process(), Err(Error::AbruptInput(1)));
}

#[test]
fn context_past_end_is_abrupt_input() {
    let original = lines(&["a"]);
    let patch = patch_with(vec![hunk(
        0,
        vec![
            PatchLine::Context("a".to_string()),
            PatchLine::Context("b".to_string()),
        ],
    )]);
    let processor = PatchProcessor::new(original, patch);
    assert_eq!(processor.process(), Err(Error::AbruptInput(1)));
}

#[test]
fn hunks_apply_in_document_order() {
    let original = lines(&["a", "b", "c", "d", "e"]);
    let patch = patch_with(vec![
        hunk(0, vec![PatchLine::Delete("a".to_string())]),
        hunk(
            3,
            vec![
                PatchLine::Context("d".to_string()),
                PatchLine::Insert("Z".to_string()),
            ],
        ),
    ]);
    let processor = PatchProcessor::new(original, patch);
    assert_eq!(processor.process().unwrap(), lines(&["b", "c", "d", "Z", "e"]));
}

// Hunks are expected non-overlapping and increasing; the applier keeps the
// reference behaviour on other inputs: each hunk replays from its own start,
// so an out-of-order hunk rewinds the cursor and lines are emitted again.
#[test]
fn out_of_order_hunks_replay_from_their_start() {
    let original = lines(&["a", "b", "c"]);
    let patch = patch_with(vec![
        hunk(2, vec![PatchLine::Context("c".to_string())]),
        hunk(0, vec![PatchLine::Context("a".to_string())]),
    ]);
    let processor = PatchProcessor::new(original, patch);
    assert_eq!(
        processor.process().unwrap(),
        lines(&["a", "b", "c", "a", "b", "c"])
    );
}

#[test]
fn insertion_hunk_end_to_end() {
    let original = lines(&["a", "b", "c", "d"]);
    let text = "--- old\n+++ new\n@@ -3,0 +3,2 @@\n+X\n+Y\n";
    let processor = PatchProcessor::converted(original, text).unwrap();
    assert_eq!(
        processor.process().unwrap(),
        lines(&["a", "b", "X", "Y", "c", "d"])
    );
}

#[test]
fn mixed_hunk_splices_context_insert_delete() {
    let original = lines(&["a", "b", "c", "d"]);
    let patch = patch_with(vec![hunk(
        1,
        vec![
            PatchLine::Context("b".to_string()),
            PatchLine::Insert("X".to_string()),
            PatchLine::Delete("c".to_string()),
        ],
    )]);
    let processor = PatchProcessor::new(original, patch);
    assert_eq!(processor.process().unwrap(), lines(&["a", "b", "X", "d"]));
}
