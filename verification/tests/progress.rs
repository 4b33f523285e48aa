use dupdup::engine::ScanPhase;
use dupdup::progress::{status_line, summary_line, ProgressReporter, DEFAULT_INTERVAL};
use dupdup::text::{decimal, padded};

#[test]
fn decimal_renders_numbers_without_leading_zeros() {
    assert_eq!(decimal(0), "0");
    assert_eq!(decimal(7), "7");
    assert_eq!(decimal(10), "10");
    assert_eq!(decimal(4096), "4096");
    assert_eq!(decimal(u64::MAX), "18446744073709551615");
}

#[test]
fn padded_fills_up_with_spaces_by_characters() {
    assert_eq!(padded("ab", 5), "ab   ");
    assert_eq!(padded("abcde", 5), "abcde");
    assert_eq!(padded("abcdef", 5), "abcdef");
    assert_eq!(padded("é", 3), format!("{:<3}", "é"));
    assert_eq!(padded("", 0), "");
}

#[test]
fn status_line_has_position_size_and_padded_path() {
    let line = status_line(3, 12, "1.5 KB", "dir/file");
    assert_eq!(line, format!("\r[{}/{}][{}] {:<100}", 3, 12, "1.5 KB", "dir/file"));
    assert_eq!(line.chars().count(), "\r[3/12][1.5 KB] ".len() + 100);
}

#[test]
fn summary_lines_name_the_pass() {
    assert_eq!(
        summary_line(ScanPhase::Prefilter, "8.2 KB", 4),
        "\rFirst pass finished, potentially wasted 8.2 KB in 4 duplicated files."
    );
    assert_eq!(
        summary_line(ScanPhase::Confirmation, "0 B", 0),
        "\rSecond pass finished, wasted 0 B in 0 duplicated files."
    );
}

#[test]
fn reporter_lets_one_line_through_for_each_interval() {
    let mut reporter = ProgressReporter::new(DEFAULT_INTERVAL, 5_000_000_000);
    assert!(!reporter.tick(5_000_000_000));
    assert!(!reporter.tick(5_999_999_999));
    assert!(!reporter.tick(6_000_000_000));
    assert_eq!(reporter.last, 5_000_000_000);
    assert!(reporter.tick(6_000_000_001));
    assert_eq!(reporter.last, 6_000_000_001);
    assert!(!reporter.tick(6_500_000_000));
    assert!(!reporter.tick(1));
    assert!(reporter.tick(8_000_000_000));
}

#[test]
fn reporter_formats_a_line_only_when_one_is_due() {
    let mut reporter = ProgressReporter::new(10, 100);
    assert_eq!(reporter.status(105, 1, 2, 0, "p"), None);
    let line = reporter.status(111, 1, 2, 999, "p").unwrap();
    assert_eq!(line, format!("\r[1/2][999 B] {:<100}", "p"));
    assert_eq!(reporter.status(112, 2, 2, 999, "q"), None);
    let large = reporter.status(200, 2, 2, 1_500_000, "q").unwrap();
    assert_eq!(large, format!("\r[2/2][{}] {:<100}", bytesize::to_string(1_500_000, false), "q"));
}

#[test]
fn summary_is_never_held_back() {
    let reporter = ProgressReporter::new(u64::MAX, 0);
    assert_eq!(
        reporter.summary(ScanPhase::Prefilter, 12, 2),
        "\rFirst pass finished, potentially wasted 12 B in 2 duplicated files."
    );
    assert_eq!(
        reporter.summary(ScanPhase::Confirmation, 12, 1),
        "\rSecond pass finished, wasted 12 B in 1 duplicated files."
    );
}
