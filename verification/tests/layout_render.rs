use file_explorer::layout::{crop_string, format_file_entry, max_whole_digits, render, FileEntry};
use unicode_width::UnicodeWidthStr;

#[test]
fn crop_keeps_short_names_unchanged() {
    assert_eq!(crop_string("short", 10), "short");
    assert_eq!(crop_string("short", 5), "short");
    assert_eq!(crop_string("", 0), "");
    assert_eq!(crop_string("日本", 4), "日本");
}

#[test]
fn crop_truncates_with_ellipsis() {
    assert_eq!(crop_string("abcdefgh", 5), "abc…");
    assert_eq!(crop_string("abcdefgh", 2), "…");
    assert_eq!(crop_string("abc", 0), "…");
}

#[test]
fn crop_never_splits_wide_characters() {
    // Each of these characters is two columns wide; a half character never
    // appears.
    assert_eq!(crop_string("日本語", 5), "日…");
    assert_eq!(crop_string("日本", 3), "…");
    assert_eq!(crop_string("日本語abc", 8), "日本語…");
}

#[test]
fn crop_respects_the_column_budget() {
    let names = ["hello world this is long", "日本語テキスト", "mixed 日本 text here"];
    for name in names {
        for w in 1..12usize {
            let cropped = crop_string(name, w);
            assert!(
                cropped.width() <= w,
                "{:?} cropped to {} is {:?}, {} columns",
                name,
                w,
                cropped,
                cropped.width()
            );
        }
    }
}

#[test]
fn format_aligns_like_the_classic_format_string() {
    let f = FileEntry::new("abc".to_string(), 1536, false);
    let line = format_file_entry(&f, 10, 3);
    assert_eq!(line, format!("{:<7} {:<10} {:>6.2} {}", "[FILE]", "abc", 1.5, "KB"));

    let d = FileEntry::new("docs".to_string(), 5000, true);
    let line = format_file_entry(&d, 8, 4);
    assert_eq!(line, format!("{:<7} {:<8} {:>7.2} {}", "[DIR]", "docs", 4.88, "KB"));
}

#[test]
fn format_with_zero_name_column_shows_ellipsis_only() {
    let f = FileEntry::new("name".to_string(), 0, false);
    let line = format_file_entry(&f, 0, 1);
    assert_eq!(line, "[FILE]  … 0.00 B");
}

#[test]
fn format_pads_wide_names_by_columns() {
    // The name column is eight columns; padding counts the name's four
    // columns, not its two characters.
    let f = FileEntry::new("日本".to_string(), 1, false);
    let line = format_file_entry(&f, 8, 1);
    assert_eq!(line, "[FILE]  日本     1.00 B");
}

#[test]
fn max_whole_digits_looks_at_formatted_values() {
    // 5000 bytes show as 4.88 KB: one integer digit, not four.
    let entries = vec![
        FileEntry::new("a".to_string(), 5000, false),
        FileEntry::new("b".to_string(), 100, false),
    ];
    assert_eq!(max_whole_digits(&entries), 3);
    let empty: Vec<FileEntry> = vec![];
    assert_eq!(max_whole_digits(&empty), 1);
}

#[test]
fn render_caps_rows_and_keeps_order() {
    let entries = vec![
        FileEntry::new("a".to_string(), 100, false),
        FileEntry::new("b".to_string(), 200, true),
        FileEntry::new("c".to_string(), 300, false),
    ];
    let lines = render(&entries, 40, 10);
    assert_eq!(lines.len(), 3);
    assert_eq!(lines[0], format!("{:<7} {:<22} {:>6.2} {}", "[FILE]", "a", 100.0, "B"));
    assert_eq!(lines[1], format!("{:<7} {:<22} {:>6.2} {}", "[DIR]", "b", 200.0, "B"));
    assert_eq!(lines[2], format!("{:<7} {:<22} {:>6.2} {}", "[FILE]", "c", 300.0, "B"));

    let capped = render(&entries, 40, 4);
    assert_eq!(capped.len(), 1);
    let none = render(&entries, 40, 3);
    assert_eq!(none.len(), 0);
}

#[test]
fn render_of_empty_directory_is_empty() {
    let entries: Vec<FileEntry> = vec![];
    let lines = render(&entries, 80, 24);
    assert!(lines.is_empty());
}
