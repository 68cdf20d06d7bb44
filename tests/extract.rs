use get_livecaptions::extract_new_lines;

#[test]
fn test_extract_new_lines_first_run() {
    let previous = "";
    let current = "Hello world\nThis is new";

    let result = extract_new_lines(previous, current);
    assert_eq!(result, "Hello world\nThis is new");
}

#[test]
fn test_extract_new_lines_normal_accumulation() {
    let previous = "Hello world\nThis is existing";
    let current = "Hello world\nThis is existing\nThis is new line";

    let result = extract_new_lines(previous, current);
    assert_eq!(result, "This is new line\n");
}

#[test]
fn test_extract_new_lines_no_new_content() {
    let previous = "Hello world\nSame text";
    let current = "Hello world\nSame text";

    let result = extract_new_lines(previous, current);
    assert_eq!(result, "");
}

#[test]
fn test_extract_new_lines_complete_truncation() {
    let previous = "Old content\nThat is gone";
    let current = "Completely new\nDifferent text";

    let result = extract_new_lines(previous, current);
    assert_eq!(result, "Completely new\nDifferent text");
}

#[test]
fn test_extract_new_lines_partial_overlap() {
    let previous = "Line 1\nLine 2\nLine 3";
    let current = "Line 2\nLine 3\nLine 4\nLine 5";

    let result = extract_new_lines(previous, current);
    assert_eq!(result, "Line 4\nLine 5\n");
}

#[test]
fn test_extract_new_lines_partial_overlap2() {
    let previous = "Line 1\nLine 2\nLine 3";
    let current = "Line 2\nLine 3 Line 3\nLine 4\nLine 5";

    let result = extract_new_lines(previous, current);
    // Finds "Line 2" as overlap (1 line match), returns content after it
    // "Line 3" doesn't match "Line 3 Line 3", so match stops at 1 line
    assert_eq!(result, "Line 3 Line 3\nLine 4\nLine 5\n");
}

#[test]
fn test_extract_new_lines_empty_previous_lines() {
    let previous = "\n\n";
    let current = "New content here";

    let result = extract_new_lines(previous, current);
    assert!(result.contains("New content here"));
}

#[test]
fn test_extract_new_lines_multiple_new_lines() {
    let previous = "First line";
    let current = "First line\nSecond line\nThird line\nFourth line";

    let result = extract_new_lines(previous, current);
    assert_eq!(result, "Second line\nThird line\nFourth line\n");
}

#[test]
fn first_observation_returns_current_unchanged() {
    assert_eq!(extract_new_lines("", "a\nb\n"), "a\nb\n");
    assert_eq!(extract_new_lines("", "only"), "only");
}

#[test]
fn snapshot_against_itself_is_empty() {
    assert_eq!(extract_new_lines("one", "one"), "");
    assert_eq!(extract_new_lines("a\nb\nc\n", "a\nb\nc\n"), "");
}

#[test]
fn one_appended_line_is_reported_alone() {
    assert_eq!(extract_new_lines("x\ny", "x\ny\nz"), "z\n");
    assert_eq!(extract_new_lines("x\ny\n", "x\ny\nz\n"), "z\n");
}

#[test]
fn no_common_line_is_a_reset() {
    assert_eq!(extract_new_lines("p\nq", "r\ns\n"), "r\ns\n");
}

#[test]
fn empty_current_after_content_is_empty() {
    assert_eq!(extract_new_lines("something", ""), "");
}

#[test]
fn ties_take_the_earliest_alignment() {
    // "a" aligns at start lines 0 and 2 with length 1; either gives overlap 1.
    assert_eq!(extract_new_lines("a\nb\na", "a\nc"), "c\n");
}

#[test]
fn longest_alignment_wins_over_earlier_shorter_one() {
    assert_eq!(extract_new_lines("a\nx\na\nb", "a\nb\nc"), "c\n");
}

#[test]
fn whitespace_lines_count_and_are_emitted() {
    assert_eq!(extract_new_lines("a", "a\n  \nb"), "  \nb\n");
}

#[test]
fn rewritten_last_line_is_new_content() {
    assert_eq!(extract_new_lines("a\nb\nc", "a\nb\nc d"), "c d\n");
}
