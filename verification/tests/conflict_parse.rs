use gitsurveil::conflict::{ConflictHunk, ConflictSegment};
use gitsurveil::parse::{conflict_count, parse_conflicts, serialize};

fn conflict_hunks(text: &str) -> Vec<ConflictHunk> {
    parse_conflicts(text)
        .into_iter()
        .filter_map(|s| match s {
            ConflictSegment::Conflict { hunk } => Some(hunk),
            ConflictSegment::Context { .. } => None,
        })
        .collect()
}

#[test]
fn round_trips_unmodified_conflicts_byte_exactly() {
    let text = "a\n<<<<<<< HEAD\nours\n=======\ntheirs\n>>>>>>> feature\nb";
    assert_eq!(serialize(&parse_conflicts(text)), text);
}

#[test]
fn round_trips_with_trailing_newline() {
    let text = "<<<<<<< HEAD\nx\n=======\ny\n>>>>>>> feature\n";
    assert_eq!(serialize(&parse_conflicts(text)), text);
}

#[test]
fn round_trips_crlf() {
    let text = "a\r\n<<<<<<< HEAD\r\nours\r\n=======\r\ntheirs\r\n>>>>>>> feature\r\nb\r\n";
    assert_eq!(serialize(&parse_conflicts(text)), text);
}

#[test]
fn parses_diff3_base_section() {
    let text = "a\n<<<<<<< HEAD\nours\n||||||| merged common ancestor\nbase\n=======\ntheirs\n>>>>>>> feature\nb\n";
    let hunks = conflict_hunks(text);
    assert_eq!(hunks.len(), 1);
    let hunk = &hunks[0];
    assert_eq!(hunk.ours, vec!["ours\n"]);
    assert_eq!(hunk.base.as_deref(), Some(&["base\n".to_string()][..]));
    assert_eq!(hunk.theirs, vec!["theirs\n"]);
    assert_eq!(hunk.ours_label.as_deref(), Some("HEAD"));
    assert_eq!(hunk.theirs_label.as_deref(), Some("feature"));
    assert_eq!(hunk.base_label.as_deref(), Some("merged common ancestor"));
}

#[test]
fn truncated_hunk_degrades_to_context_without_panicking() {
    let text = "a\n<<<<<<< HEAD\nours\n=======\ntheirs\n";
    let segments = parse_conflicts(text);
    assert_eq!(conflict_hunks(text).len(), 0);
    assert!(segments.iter().all(|s| matches!(s, ConflictSegment::Context { .. })));
    assert_eq!(serialize(&segments), text);
}

#[test]
fn nested_markers_degrades_to_context() {
    let text = "<<<<<<< HEAD\n<<<<<<< HEAD\ninner\n=======\n>>>>>>> feature\n=======\ntheirs\n>>>>>>> feature\n";
    assert_eq!(conflict_hunks(text).len(), 0);
    assert_eq!(serialize(&parse_conflicts(text)), text);
}

#[test]
fn marker_like_line_inside_source_is_not_a_hunk() {
    let text = "let s = \"not a conflict\";\n<<<<<<< placeholder\nstill just code\n";
    let segments = parse_conflicts(text);
    assert_eq!(conflict_hunks(text).len(), 0);
    assert_eq!(serialize(&segments), text);
}

#[test]
fn multiple_conflicts_stay_ordered_and_distinct() {
    let text = "head\n<<<<<<< HEAD\none\n=======\none-theirs\n>>>>>>> f\nmid\n<<<<<<< HEAD\ntwo\n||||||| base\nb\n=======\ntwo-theirs\n>>>>>>> f\ntail\n";
    let hunks = conflict_hunks(text);
    assert_eq!(hunks.len(), 2);
    assert_eq!(hunks[0].ours, vec!["one\n"]);
    assert_eq!(hunks[1].theirs, vec!["two-theirs\n"]);
    assert_eq!(serialize(&parse_conflicts(text)), text);
}

#[test]
fn content_line_of_eight_equals_is_not_a_separator() {
    let text = "a\n<<<<<<< HEAD\n========\n=======\ntheirs\n>>>>>>> f\nb\n";
    let hunks = conflict_hunks(text);
    assert_eq!(hunks.len(), 1);
    assert_eq!(hunks[0].ours, vec!["========\n"]);
    assert_eq!(hunks[0].theirs, vec!["theirs\n"]);
}

#[test]
fn count_reports_hunks_and_clears_once_resolved() {
    let text = "a\n<<<<<<< HEAD\nx\n=======\ny\n>>>>>>> f\n<<<<<<< HEAD\np\n=======\nq\n>>>>>>> g\n";
    assert_eq!(conflict_count(text), 2);
    let resolved = "a\nx\ny\n";
    assert_eq!(conflict_count(resolved), 0);
}

#[test]
fn empty_file_parses_to_no_segments() {
    assert_eq!(parse_conflicts(""), Vec::<ConflictSegment>::new());
}

#[test]
fn hunk_records_line_numbers_and_raw_block() {
    let text = "a\n<<<<<<< HEAD\nx\n=======\ny\n>>>>>>> f\nb\n";
    let hunks = conflict_hunks(text);
    assert_eq!(hunks.len(), 1);
    assert_eq!(hunks[0].start_line, 2);
    assert_eq!(hunks[0].end_line, 6);
    assert_eq!(hunks[0].raw.len(), 5);
    assert_eq!(hunks[0].base, None);
    assert_eq!(hunks[0].base_label, None);
}

#[test]
fn unlabeled_markers_have_no_labels() {
    let text = "<<<<<<<\nx\n=======\ny\n>>>>>>>\n";
    let hunks = conflict_hunks(text);
    assert_eq!(hunks.len(), 1);
    assert_eq!(hunks[0].ours_label, None);
    assert_eq!(hunks[0].theirs_label, None);
    assert_eq!(serialize(&parse_conflicts(text)), text);
}
