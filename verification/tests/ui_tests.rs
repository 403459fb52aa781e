use defense::report::{
    Finding, FindingSeverity, RecommendedAction, ScanMode, ScanReport, ScanRequest,
};
use defense::ui::{
    format_elapsed, format_number, header_lines, progress_message, report_lines, scan_start_message,
    severity_badge, spinner_message,
    severity_sort_key, wrap, SeverityCounts,
};

#[test]
fn wrap_short_text_is_single_line() {
    let lines = wrap("hello world", 80);
    assert_eq!(lines.len(), 1);
    assert_eq!(lines[0], "hello world");
}

#[test]
fn wrap_long_text_splits_at_word_boundary() {
    let text = "one two three four five six seven eight nine ten";
    let lines = wrap(text, 20);
    for line in &lines {
        assert!(line.len() <= 20, "line too long: {line:?}");
    }
}

#[test]
fn severity_sort_critical_first() {
    assert!(
        severity_sort_key(&FindingSeverity::Critical) < severity_sort_key(&FindingSeverity::High)
    );
}

#[test]
fn format_number_inserts_commas() {
    assert_eq!(format_number(0), "0");
    assert_eq!(format_number(999), "999");
    assert_eq!(format_number(1000), "1,000");
    assert_eq!(format_number(1_234_567), "1,234,567");
}

#[test]
fn format_elapsed_pads_correctly() {
    assert_eq!(format_elapsed(0), "00:00:00");
    assert_eq!(format_elapsed(61), "00:01:01");
    assert_eq!(format_elapsed(3661), "01:01:01");
}

fn make_finding(sev: FindingSeverity) -> Finding {
    Finding {
        id: "x".into(),
        severity: sev,
        score: 50,
        title: "t".into(),
        explanation: "e".into(),
        item_path: None,
        process_id: None,
        persistence_location: None,
        evidences: vec![],
        recommended_action: RecommendedAction::Review,
    }
}

fn empty_report(findings: Vec<Finding>) -> ScanReport {
    ScanReport {
        schema_version: "1".into(),
        app_version: "0.1.0".into(),
        mode: ScanMode::Quick,
        started_at: "".into(),
        finished_at: "".into(),
        duration_ms: 0,
        memory_peak_kb: None,
        scanned_files: 0,
        scanned_persistence_entries: 0,
        findings,
        warnings: vec![],
    }
}

#[test]
fn severity_counts_totals_correctly() {
    let report = empty_report(vec![
        make_finding(FindingSeverity::Critical),
        make_finding(FindingSeverity::Critical),
        make_finding(FindingSeverity::High),
        make_finding(FindingSeverity::Medium),
    ]);

    let counts = SeverityCounts::from(&report);
    assert_eq!(counts.critical, 2);
    assert_eq!(counts.high, 1);
    assert_eq!(counts.medium, 1);
    assert_eq!(counts.total(), 4);
}

#[test]
fn quick_scan_progress_message_is_human_readable() {
    let message = scan_start_message(&ScanRequest::new(ScanMode::Quick));

    assert!(message.contains("starting Quick scan"));
}

#[test]
fn usb_scan_message_names_the_mode() {
    assert_eq!(
        scan_start_message(&ScanRequest::new(ScanMode::Usb)),
        "panicscan: starting Usb scan"
    );
}

#[test]
fn format_number_groups_the_largest_value() {
    assert_eq!(format_number(u64::MAX), "18,446,744,073,709,551,615");
    assert_eq!(format_number(100_000), "100,000");
}

#[test]
fn format_elapsed_lets_hours_grow() {
    assert_eq!(format_elapsed(360_000), "100:00:00");
    assert_eq!(format_elapsed(3599), "00:59:59");
}

#[test]
fn wrap_cuts_an_overlong_word_into_pieces() {
    let lines = wrap("a verylongwordthatdoesnotfit b", 5);
    assert_eq!(lines, vec!["a", "veryl", "ongwo", "rdtha", "tdoes", "notfi", "t b"]);
    for line in &lines {
        assert!(line.chars().count() <= 5);
    }
}

#[test]
fn wrap_of_blank_text_is_one_empty_line() {
    assert_eq!(wrap("   \t ", 10), vec![String::new()]);
    assert_eq!(wrap("", 10), vec![String::new()]);
}

#[test]
fn wrap_fills_lines_greedily() {
    let lines = wrap("aa bb cc dd", 5);
    assert_eq!(lines, vec!["aa bb", "cc dd"]);
}

#[test]
fn wrap_measures_lines_in_characters() {
    // "éé éé" is 5 characters (9 bytes), within a width of 8 characters.
    let lines = wrap("éé éé", 8);
    assert_eq!(lines, vec!["éé éé"]);
}

#[test]
fn severity_badges_are_styled() {
    assert_eq!(
        severity_badge(&FindingSeverity::Critical),
        "\x1b[1m\x1b[31m CRITICAL \x1b[39m\x1b[0m"
    );
    assert_eq!(severity_badge(&FindingSeverity::Info), "\x1b[2m  INFO    \x1b[0m");
    assert_eq!(severity_badge(&FindingSeverity::Low), "\x1b[94m  LOW     \x1b[39m");
}

#[test]
fn header_box_is_as_wide_as_the_title_bytes() {
    let lines = header_lines(&ScanMode::Quick);
    assert_eq!(lines.len(), 5);
    // " PanicScan  ·  Quick Scan " is 27 bytes ('·' takes two).
    let bar = "═".repeat(31);
    assert_eq!(lines[1], format!("  ╔{bar}╗"));
    assert_eq!(lines[3], format!("  ╚{bar}╝"));
    assert!(lines[2].contains(" PanicScan  ·  Quick Scan "));
}

#[test]
fn clean_report_says_no_threats() {
    let lines = report_lines(&empty_report(vec![]));
    assert!(lines[0].contains("No threats found."));
    assert!(lines.iter().any(|l| l.contains("Clean")));
    assert!(!lines.iter().any(|l| l.contains("To quarantine a finding")));
}

#[test]
fn report_lists_most_severe_first_and_summarizes() {
    let mut low = make_finding(FindingSeverity::Low);
    low.title = "low one".into();
    let mut crit = make_finding(FindingSeverity::Critical);
    crit.title = "critical one".into();
    crit.recommended_action = RecommendedAction::Quarantine;
    crit.item_path = Some("/tmp/bad.exe".into());
    let mut report = empty_report(vec![low, crit]);
    report.scanned_files = 12345;
    report.duration_ms = 61_000;
    let lines = report_lines(&report);
    let crit_at = lines.iter().position(|l| l.contains("critical one")).unwrap();
    let low_at = lines.iter().position(|l| l.contains("low one")).unwrap();
    assert!(crit_at < low_at);
    let summary = lines.iter().find(|l| l.starts_with("  Summary: ")).unwrap();
    assert!(summary.contains("1 CRITICAL"));
    assert!(summary.contains("1 LOW"));
    assert!(!summary.contains("Clean"));
    let files = lines.iter().find(|l| l.starts_with("  Files: ")).unwrap();
    assert!(files.contains("12,345"));
    assert!(files.contains("00:01:01"));
    assert!(lines.iter().any(|l| l.contains("To quarantine a finding")));
    assert!(lines.iter().any(|l| l.contains("/tmp/bad.exe")));
    assert!(lines.iter().any(|l| l.contains("→ quarantine recommended")));
}

#[test]
fn spinner_and_progress_messages() {
    assert_eq!(spinner_message(&ScanMode::Quick), "Scanning (Quick Scan)…");
    assert_eq!(
        progress_message(&ScanMode::Full, 1234567, 3661),
        "Scanning (Full Scan)… 1,234,567 dosya | 01:01:01"
    );
    assert_eq!(progress_message(&ScanMode::Usb, 0, 0), "Scanning (USB Scan)… 0 dosya | 00:00:00");
}

#[test]
fn wrap_cuts_long_word_at_width() {
    let lines = wrap("abcdefghijk", 5);
    assert_eq!(lines, vec!["abcde".to_string(), "fghij".to_string(), "k".to_string()]);
    assert_eq!(lines.concat(), "abcdefghijk");
}

#[test]
fn wrap_counts_characters_not_bytes() {
    // Five two-byte characters fit a width of five characters.
    let lines = wrap("üüüüü ab", 5);
    assert_eq!(lines, vec!["üüüüü".to_string(), "ab".to_string()]);
    let lines = wrap("ab cd efghijkl", 5);
    assert_eq!(lines, vec!["ab cd".to_string(), "efghi".to_string(), "jkl".to_string()]);
    for line in &lines {
        assert!(line.chars().count() <= 5);
    }
}

#[test]
fn format_number_groups_are_three_digits_after_the_first() {
    for n in [0u64, 7, 999, 1000, 12345, 1234567, u64::MAX] {
        let text = format_number(n);
        let groups: Vec<&str> = text.split(',').collect();
        assert!((1..=3).contains(&groups[0].len()));
        for g in &groups[1..] {
            assert_eq!(g.len(), 3);
        }
        assert_eq!(text.replace(",", ""), n.to_string());
    }
}
