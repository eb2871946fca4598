use rust_log_collector::level::LogLevel;
use rust_log_collector::parse::parse_content;

#[test]
fn empty_file_parses_to_no_entries() {
    let entries = parse_content("", "697dff2cbfc969fe967002b7", "2024-05-30T10:00:00.000Z");

    assert_eq!(entries.len(), 0);
}

#[test]
fn blank_lines_are_skipped() {
    let entries = parse_content(
        "INFO ok\nboom ERROR\n\n",
        "697dff2cbfc969fe967002b7",
        "2024-05-30T10:00:00.000Z",
    );

    assert_eq!(entries.len(), 2);
    assert_eq!(entries[0].line_content, "INFO ok");
    assert_eq!(entries[0].level, LogLevel::INFO);
    assert_eq!(entries[1].line_content, "boom ERROR");
    assert_eq!(entries[1].level, LogLevel::ERROR);
}

#[test]
fn entries_are_stamped_with_service_and_time() {
    let entries = parse_content("one INFO\ntwo WARN", "abc", "2025-01-01T00:00:00.000Z");

    assert_eq!(entries.len(), 2);
    for e in &entries {
        assert_eq!(e.my_service_id, "abc");
        assert_eq!(e.created_at, "2025-01-01T00:00:00.000Z");
    }
    assert_eq!(entries[0].level, LogLevel::INFO);
    assert_eq!(entries[1].level, LogLevel::WARN);
}

#[test]
fn carriage_returns_are_stripped() {
    let entries = parse_content("a INFO\r\nb error\r\n", "id", "t");

    assert_eq!(entries.len(), 2);
    assert_eq!(entries[0].line_content, "a INFO");
    assert_eq!(entries[1].line_content, "b error");
    assert_eq!(entries[1].level, LogLevel::ERROR);
}

#[test]
fn file_without_trailing_newline_keeps_last_line() {
    let entries = parse_content("first\nsecond", "id", "t");

    assert_eq!(entries.len(), 2);
    assert_eq!(entries[0].line_content, "first");
    assert_eq!(entries[0].level, LogLevel::OTHER);
    assert_eq!(entries[1].line_content, "second");
}

#[test]
fn whitespace_only_file_yields_nothing_but_blank_spaces_count() {
    let only_newlines = parse_content("\n\n\n", "id", "t");
    assert_eq!(only_newlines.len(), 0);

    let spaces = parse_content(" \n", "id", "t");
    assert_eq!(spaces.len(), 1);
    assert_eq!(spaces[0].line_content, " ");
}
