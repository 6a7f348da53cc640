use patch_rs::grammar;
use patch_rs::grammar::Node;
use patch_rs::Element;
use patch_rs::Error;
use patch_rs::Malformation;
use patch_rs::PatchLine;
use patch_rs::PatchProcessor;

fn lines(items: &[&str]) -> Vec<String> {
    items.iter().map(|s| s.to_string()).collect()
}

#[test]
fn convert_reads_paths_and_hunks() {
    let text = "--- old.txt\n+++ new.txt\n@@ -2,1 +2,1 @@\n b\n-c\n+X\n";
    let patch = PatchProcessor::convert(text).unwrap();
    assert_eq!(patch.input, "old.txt");
    assert_eq!(patch.output, "new.txt");
    assert_eq!(patch.contexts.len(), 1);
    let hunk = &patch.contexts[0];
    assert_eq!(hunk.header.file1_l, 1);
    assert_eq!(hunk.header.file1_s, 1);
    assert_eq!(hunk.header.file2_l, 1);
    assert_eq!(hunk.header.file2_s, 1);
    assert_eq!(hunk.data.len(), 3);
    assert!(matches!(&hunk.data[0], PatchLine::Context(t) if t == "b"));
    assert!(matches!(&hunk.data[1], PatchLine::Delete(t) if t == "c"));
    assert!(matches!(&hunk.data[2], PatchLine::Insert(t) if t == "X"));
}

#[test]
fn convert_accepts_patch_without_hunks() {
    let text = "--- a\n+++ b\n";
    let patch = PatchProcessor::convert(text).unwrap();
    assert_eq!(patch.contexts.len(), 0);
}

#[test]
fn last_path_declaration_wins() {
    let text = "--- a\n--- b\n+++ c\n";
    let patch = PatchProcessor::convert(text).unwrap();
    assert_eq!(patch.input, "b");
    assert_eq!(patch.output, "c");
}

#[test]
fn unclassifiable_line_is_grammar_error() {
    let text = "--- a\n+++ b\ngarbage\n";
    assert!(matches!(
        PatchProcessor::convert(text),
        Err(Error::Grammar(2))
    ));
}

#[test]
fn empty_line_is_grammar_error() {
    let text = "--- a\n+++ b\n\n";
    assert!(matches!(
        PatchProcessor::convert(text),
        Err(Error::Grammar(2))
    ));
}

#[test]
fn malformed_header_is_grammar_error() {
    let text = "--- a\n+++ b\n@@ -1,2 +3 @@\n";
    assert!(matches!(
        PatchProcessor::convert(text),
        Err(Error::Grammar(2))
    ));
}

#[test]
fn header_with_trailing_text_is_grammar_error() {
    let text = "--- a\n+++ b\n@@ -1,2 +3,4 @@ extra\n";
    assert!(matches!(
        PatchProcessor::convert(text),
        Err(Error::Grammar(2))
    ));
}

#[test]
fn empty_text_misses_input_path() {
    assert!(matches!(
        PatchProcessor::convert(""),
        Err(Error::NotFound(Element::InputPath))
    ));
}

#[test]
fn missing_output_path_is_not_found() {
    assert!(matches!(
        PatchProcessor::convert("--- a\n"),
        Err(Error::NotFound(Element::OutputPath))
    ));
}

#[test]
fn header_value_overflow_is_integer_parse_error() {
    let text = "--- a\n+++ b\n@@ -99999999999999999999,1 +1,1 @@\n";
    assert!(matches!(
        PatchProcessor::convert(text),
        Err(Error::IntegerParse(2))
    ));
}

#[test]
fn zero_old_start_is_malformed() {
    let text = "--- a\n+++ b\n@@ -0,1 +1,1 @@\n";
    assert!(matches!(
        PatchProcessor::convert(text),
        Err(Error::MalformedPatch(Malformation::ZeroStart))
    ));
}

#[test]
fn zero_new_start_is_malformed() {
    let text = "--- a\n+++ b\n@@ -1,1 +0,1 @@\n";
    assert!(matches!(
        PatchProcessor::convert(text),
        Err(Error::MalformedPatch(Malformation::ZeroStart))
    ));
}

#[test]
fn line_before_any_header_is_malformed() {
    let text = "--- a\n+++ b\n x\n";
    assert!(matches!(
        PatchProcessor::convert(text),
        Err(Error::MalformedPatch(Malformation::LineOutsideHunk))
    ));
}

#[test]
fn grammar_labels_each_line_kind() {
    let nodes = grammar::parse("--- p\n+++ q\n@@ -1,0 +1,0 @@\n x\n-y\n+z\n").unwrap();
    assert_eq!(nodes.len(), 6);
    assert!(matches!(&nodes[0], Node::File1(t) if t == "p"));
    assert!(matches!(&nodes[1], Node::File2(t) if t == "q"));
    assert!(matches!(
        &nodes[2],
        Node::Header(h) if h.file1_l == 1 && h.file1_s == 0 && h.file2_l == 1 && h.file2_s == 0
    ));
    assert!(matches!(&nodes[3], Node::Ctx(t) if t == "x"));
    assert!(matches!(&nodes[4], Node::Del(t) if t == "y"));
    assert!(matches!(&nodes[5], Node::Ins(t) if t == "z"));
}

#[test]
fn path_markers_win_over_line_markers() {
    let nodes = grammar::parse("--- a\n+++ b\n").unwrap();
    assert!(matches!(&nodes[0], Node::File1(t) if t == "a"));
    let nodes = grammar::parse("----\n").unwrap();
    assert!(matches!(&nodes[0], Node::Del(t) if t == "---"));
    let nodes = grammar::parse("-abc\n").unwrap();
    assert!(matches!(&nodes[0], Node::Del(t) if t == "abc"));
}

#[test]
fn final_line_without_newline_is_kept() {
    let patch = PatchProcessor::convert("--- a\n+++ b").unwrap();
    assert_eq!(patch.output, "b");
}

#[test]
fn convert_twice_applies_identically() {
    let text = "--- old\n+++ new\n@@ -2,2 +2,2 @@\n b\n+X\n-c\n";
    let original = lines(&["a", "b", "c", "d"]);
    let first = PatchProcessor::converted(original.clone(), text)
        .unwrap()
        .process();
    let second = PatchProcessor::converted(original, text).unwrap().process();
    assert_eq!(first, second);
    assert_eq!(first.unwrap(), lines(&["a", "b", "X", "d"]));
}

#[test]
fn splice_scenario_end_to_end() {
    let original = lines(&["a", "b", "c", "d"]);
    let text = "--- old\n+++ new\n@@ -2,2 +2,2 @@\n b\n+X\n-c\n";
    let processor = PatchProcessor::converted(original, text).unwrap();
    assert_eq!(processor.process().unwrap(), lines(&["a", "b", "X", "d"]));
}

#[test]
fn mismatched_context_scenario_end_to_end() {
    let original = lines(&["a", "b", "c", "d"]);
    let text = "--- old\n+++ new\n@@ -2,1 +2,1 @@\n Z\n";
    let processor = PatchProcessor::converted(original, text).unwrap();
    assert_eq!(processor.process(), Err(Error::PatchInputMismatch(1)));
}

#[test]
fn converted_propagates_conversion_errors() {
    let original = lines(&["a"]);
    let result = PatchProcessor::converted(original, "not a patch\n");
    assert!(matches!(result, Err(Error::Grammar(0))));
}
