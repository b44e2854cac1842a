use grove::cli::table::{pad, Cell, Paint, Table};
use unicode_width::UnicodeWidthStr;

#[test]
fn pads_wide_characters_by_display_width() {
    // "東京" is two scalars but four terminal columns.
    let padded = pad("東京", 6);
    assert_eq!(padded, "東京  ");
    assert_eq!(padded.width(), 6);
}

#[test]
fn pads_combining_sequence_by_display_width() {
    // "e" + combining acute renders in one column despite two scalars.
    let padded = pad("e\u{0301}", 3);
    assert!(padded.starts_with("e\u{0301}"));
    assert_eq!(padded.width(), 3);
}

#[test]
fn does_not_truncate_when_content_exceeds_width() {
    assert_eq!(pad("東京", 2), "東京");
}

#[test]
fn column_width_uses_display_width_not_scalar_count() {
    let mut table = Table::new(vec!["A".to_string()]);
    table.push_row(vec![Cell::new("東".to_string(), Paint::Bold)]);

    assert_eq!(table.column_widths(), vec![2]);
}

#[test]
fn column_widths_take_the_widest_cell_and_ignore_missing_cells() {
    let mut table = Table::new(vec!["NAME".to_string(), "STATE".to_string()]);
    table.push_row(vec![
        Cell::new("backend-service".to_string(), Paint::Bold),
        Cell::new("ok".to_string(), Paint::Green),
    ]);
    table.push_row(vec![Cell::new("x".to_string(), Paint::Dimmed)]);

    assert_eq!(table.column_widths(), vec![15, 5]);
}
