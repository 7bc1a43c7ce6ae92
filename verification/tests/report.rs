use liminescreen::report::{Report, ReportFull, MAX_REPORT_BYTES};

#[test]
fn reports_are_bounded_and_keep_utf8_intact() {
    let mut report = Report::new();
    report.line(&["start ", "é"]);
    for _ in 0..MAX_REPORT_BYTES {
        report.line(&["é"]);
    }
    let text = report.finish();
    assert!(text.starts_with("start é\n"));
    assert!(text.len() <= MAX_REPORT_BYTES);
    assert!(text.ends_with("[report truncated]\n"));
}

#[test]
fn report_without_truncation_has_no_marker() {
    let mut report = Report::new();
    report.line(&["liminescreen ", "0.1.1", " boot report"]);
    report.line(&["next: chainload the installed official limine"]);
    assert_eq!(
        report.finish(),
        "liminescreen 0.1.1 boot report\nnext: chainload the installed official limine\n"
    );
}

#[test]
fn a_string_that_does_not_fit_is_dropped_whole() {
    let mut report = Report::new();
    let big = "x".repeat(MAX_REPORT_BYTES - 32);
    assert_eq!(report.write_str(&big), Ok(()));
    assert_eq!(report.write_str("é"), Err(ReportFull));
    // Truncation is final: even a string that would fit is refused.
    assert_eq!(report.write_str(""), Err(ReportFull));
    let text = report.finish();
    assert_eq!(text, big + "\n[report truncated]\n");
    assert_eq!(text.len(), MAX_REPORT_BYTES - 12);
}

#[test]
fn a_multibyte_string_is_never_cut() {
    let mut report = Report::new();
    let filler = "a".repeat(MAX_REPORT_BYTES - 33);
    assert_eq!(report.write_str(&filler), Ok(()));
    // One byte is left; a two-byte character does not fit and is not split.
    assert_eq!(report.write_str("é"), Err(ReportFull));
    let text = report.finish();
    assert!(text.starts_with(&filler));
    assert!(!text.contains('é'));
}
