use grove::cache::Outcome as CacheOutcome;
use grove::cli::size::{format_age, format_size};
use grove::cli::text::{cache_annotation, repositories, strip_ansi, terminal_multiline_text, terminal_text};

#[test]
fn formats_sizes_with_binary_units() {
    assert_eq!(format_size(0), "0 B");
    assert_eq!(format_size(1023), "1023 B");
    assert_eq!(format_size(1024), "1 KiB");
    assert_eq!(format_size(1536), "1.5 KiB");
    assert_eq!(format_size(10 * 1024), "10 KiB");
    assert_eq!(format_size(1024 * 1024), "1 MiB");
    assert_eq!(format_size(1536 * 1024), "1.5 MiB");
    assert_eq!(format_size(1024_u64.pow(3)), "1 GiB");
    assert_eq!(format_size(1024_u64.pow(4)), "1 TiB");
}

#[test]
fn rounds_sizes_to_one_decimal_with_ties_to_even() {
    // 1.25 KiB is an exact tie and rounds to the even tenth.
    assert_eq!(format_size(1280), "1.2 KiB");
    // 1.75 KiB rounds up to the even tenth.
    assert_eq!(format_size(1792), "1.8 KiB");
    // Just under 1 MiB stays in KiB and rounds up to 1024.
    assert_eq!(format_size(1024 * 1024 - 1), "1024 KiB");
    // Past the largest unit the value keeps growing in TiB.
    assert_eq!(format_size(2048 * 1024_u64.pow(4)), "2048 TiB");
}

#[test]
fn escapes_terminal_control_characters() {
    assert_eq!(terminal_text("a\n\t\u{1b}[31m"), "a\\n\\t\\u{1b}[31m");
}

#[test]
fn escapes_c1_controls_and_keeps_other_text() {
    assert_eq!(terminal_text("\u{7f}\u{9b}é東\r"), "\\u{7f}\\u{9b}é東\\r");
}

#[test]
fn multiline_text_keeps_line_breaks_only() {
    assert_eq!(terminal_multiline_text("one\ntwo\t\n"), "one\ntwo\\t\n");
}

#[test]
fn strips_ansi_sequences() {
    assert_eq!(strip_ansi("\u{1b}[1;31mred\u{1b}[0m plain"), "red plain");
    assert_eq!(strip_ansi("cut \u{1b}[31"), "cut ");
    assert_eq!(strip_ansi("lone \u{1b} escape"), "lone \u{1b} escape");
}

#[test]
fn counts_repositories_in_words() {
    assert_eq!(repositories(1), "1 repository");
    assert_eq!(repositories(0), "0 repositories");
    assert_eq!(repositories(12), "12 repositories");
}

#[test]
fn annotates_what_the_cache_did() {
    assert_eq!(cache_annotation(CacheOutcome::Miss), "(cached)");
    assert_eq!(cache_annotation(CacheOutcome::Hit), "(from cache)");
    assert_eq!(cache_annotation(CacheOutcome::Rebuilt), "(cache rebuilt)");
    assert_eq!(cache_annotation(CacheOutcome::Retargeted), "(cache retargeted)");
}

#[test]
fn formats_ages_in_their_largest_unit() {
    assert_eq!(format_age(59), "59s");
    assert_eq!(format_age(60), "1m");
    assert_eq!(format_age(3599), "59m");
    assert_eq!(format_age(3600), "1h");
    assert_eq!(format_age(86399), "23h");
    assert_eq!(format_age(2 * 86400 + 5), "2d");
}

#[test]
fn escaped_text_is_not_taken_for_styling() {
    let hostile = "repo\u{1b}[31mred\u{1b}[0m\n";
    let shown = terminal_text(hostile);
    assert_eq!(strip_ansi(&shown), shown);
    assert_eq!(strip_ansi(hostile), "repored\n");
}
