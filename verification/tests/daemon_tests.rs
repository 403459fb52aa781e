use defense::daemon::{status_lines, uptime_between, uptime_text, DaemonState, ProtectionMode};
use defense::daemon_view::{
    cli_status_lines, cuts_on_boundary, event_row, events_lines, request_line, response_json, scan_request_message,
    scan_result_lines, threat_warning, ScanEvent, ScanResult,
};

#[test]
fn fresh_state_counts_nothing() {
    let s = DaemonState::new(vec!["/tmp".to_string(), "/home".to_string()]);
    assert_eq!(s.total_scans(), 0);
    assert_eq!(s.total_alerts(), 0);
    assert_eq!(s.watched_dirs.len(), 2);
}

#[test]
fn record_scan_counts_scans_and_alerts() {
    let mut s = DaemonState::new(Vec::new());
    s.record_scan(true);
    s.record_scan(false);
    s.record_scan(true);
    s.record_scan(false);
    assert_eq!(s.total_scans(), 4);
    assert_eq!(s.total_alerts(), 2);
    assert!(s.total_alerts() <= s.total_scans());
}

#[test]
fn status_carries_counts_and_version() {
    let mut s = DaemonState::new(vec!["/etc".to_string()]);
    s.record_scan(true);
    let st = s.to_status();
    assert!(st.running);
    assert_eq!(st.started_at, s.started_at);
    assert_eq!(st.total_scans, 1);
    assert_eq!(st.total_alerts, 1);
    assert_eq!(st.watched_dirs, 1);
    assert_eq!(st.version, "0.1.0");
    assert_eq!(st.protection_mode, ProtectionMode::RulesOnly);
    assert_eq!(s.protection_mode, ProtectionMode::RulesOnly);
}

#[test]
fn uptime_text_splits_seconds_minutes_hours() {
    assert_eq!(uptime_text(0), "0s 0dk 0sa");
    assert_eq!(uptime_text(3661), "1s 1dk 1sa");
    assert_eq!(uptime_text(7322), "2s 2dk 2sa");
    assert_eq!(uptime_text(90000), "0s 0dk 25sa");
}

#[test]
fn uptime_between_is_never_negative() {
    assert_eq!(uptime_between(100, 161), 61);
    assert_eq!(uptime_between(200, 100), 0);
    assert_eq!(uptime_between(5, 15), 10);
}

#[test]
fn daemon_status_box_matches_layout() {
    let mut s = DaemonState::new(vec!["/a".to_string(), "/b".to_string(), "/c".to_string()]);
    s.record_scan(false);
    s.record_scan(true);
    let st = s.to_status();
    let lines = status_lines(&st, 3725, "RulesOnly");
    let uptime_str = format!("{}s {}dk {}sa", 3725 % 60, (3725 / 60) % 60, 3725 / 3600);
    let expected = vec![
        "╔══════════════════════════════════════╗".to_string(),
        "║     PanicScan Daemon Durumu          ║".to_string(),
        "╠══════════════════════════════════════╣".to_string(),
        "║ Durum     : ✅ Çalışıyor             ║".to_string(),
        format!("║ Versiyon  : v{:<28}║", "0.1.0"),
        format!("║ Çalışma   : {:<28}║", uptime_str),
        format!("║ Taranan   : {:<28}║", 2u64),
        format!("║ Uyarılar  : {:<28}║", 1u64),
        format!("║ İzlenen   : {} klasör{:<21}║", 3usize, ""),
        format!("║ Koruma    : {}  ║", "RulesOnly"),
        "╚══════════════════════════════════════╝".to_string(),
    ];
    assert_eq!(lines, expected);
}

#[test]
fn cli_status_box_matches_layout() {
    let mut s = DaemonState::new(vec!["/a".to_string()]);
    s.record_scan(true);
    let st = s.to_status();
    let secs: u64 = 3 * 3600 + 4 * 60 + 5;
    let lines = cli_status_lines(&st, secs, "Kurallar");
    let expected = vec![
        "╔══════════════════════════════════════════════╗".to_string(),
        "║      🛡️  PanicScan Daemon Durumu             ║".to_string(),
        "╠══════════════════════════════════════════════╣".to_string(),
        "║ Durum     : ✅ Çalışıyor                     ║".to_string(),
        format!("║ Versiyon  : v{:<33}║", "0.1.0"),
        format!("║ Çalışma   : {:02}sa {:02}dk {:02}sn{:<20}║", 3u64, 4u64, 5u64, ""),
        format!("║ Taranan   : {:<34}║", 1u64),
        format!("║ Uyarılar  : {:<34}║", 1u64),
        format!("║ İzlenen   : {} klasör{:<27}║", 1usize, ""),
        "╠══════════════════════════════════════════════╣".to_string(),
        format!("║ {}  ║", "Kurallar"),
        "╚══════════════════════════════════════════════╝".to_string(),
    ];
    assert_eq!(lines, expected);
}

fn expected_result_box(r: &ScanResult) -> Vec<String> {
    vec![
        "╔══════════════════════════════════╗".to_string(),
        "║ Tarama Sonucu                    ║".to_string(),
        "╠══════════════════════════════════╣".to_string(),
        format!("║ Dosya    : {:<22}...║", &r.path[..r.path.len().min(22)]),
        format!("║ Bulgular : {:<22}║", r.finding_count),
        format!("║ Seviye   : {:<22}║", r.highest_severity.to_uppercase()),
        format!("║ Süre     : {}ms{:<19}║", r.duration_ms, ""),
        "╚══════════════════════════════════╝".to_string(),
    ]
}

#[test]
fn scan_result_box_cuts_long_path() {
    let r = ScanResult {
        path: "/home/user/downloads/suspicious-installer.exe".to_string(),
        finding_count: 3,
        highest_severity: "high".to_string(),
        duration_ms: 42,
    };
    let lines = scan_result_lines(&r);
    assert_eq!(lines, expected_result_box(&r));
    assert!(lines[3].contains("/home/user/downloads/s..."));
}

#[test]
fn scan_result_box_keeps_short_path() {
    let r = ScanResult {
        path: "/tmp/a.sh".to_string(),
        finding_count: 0,
        highest_severity: "info".to_string(),
        duration_ms: 7,
    };
    assert_eq!(scan_result_lines(&r), expected_result_box(&r));
}

#[test]
fn scan_result_box_cuts_multibyte_path_on_boundary() {
    // "ü" takes two bytes; the cut after 22 bytes falls after the 11th "ü".
    let r = ScanResult {
        path: "üüüüüüüüüüüüüü".to_string(),
        finding_count: 1,
        highest_severity: "medium".to_string(),
        duration_ms: 1000,
    };
    let lines = scan_result_lines(&r);
    assert_eq!(lines, expected_result_box(&r));
    assert!(lines[3].starts_with("║ Dosya    : üüüüüüüüüüü "));
    assert!(!lines[3].contains("üüüüüüüüüüüü"));
}

#[test]
fn threat_warning_only_for_high_and_critical() {
    assert_eq!(threat_warning("high"), Some("\n⚠️  YÜKSEK TEHDİT TESPİT EDİLDİ!".to_string()));
    assert!(threat_warning("critical").is_some());
    assert!(threat_warning("medium").is_none());
    assert!(threat_warning("HIGH").is_none());
}

#[test]
fn events_list_empty_says_so() {
    assert_eq!(events_lines(&Vec::new()), vec!["Henüz tarama olayı yok.".to_string()]);
}

#[test]
fn events_list_formats_rows() {
    let events = vec![
        ScanEvent { detected_at: 0, severity: "low".to_string(), finding_count: 2 },
        ScanEvent { detected_at: 1_782_043_445, severity: "critical".to_string(), finding_count: 17 },
    ];
    let lines = events_lines(&events);
    let mut expected = vec![
        format!("{:<36} {:<12} {:<8}", "Zaman", "Seviye", "Bulgular"),
        "-".repeat(60),
    ];
    for e in &events {
        let t = chrono::DateTime::from_timestamp(e.detected_at, 0).unwrap();
        expected.push(format!(
            "{:<36} {:<12} {}",
            t.format("%Y-%m-%d %H:%M:%S").to_string(),
            e.severity.to_uppercase(),
            e.finding_count
        ));
    }
    assert_eq!(lines, expected);
    assert!(lines[2].starts_with("1970-01-01 00:00:00 "));
}

#[test]
fn event_row_pads_columns() {
    let row = event_row("2026-06-21 10:00:00", "HIGH", 5);
    assert_eq!(row, format!("{:<36} {:<12} {}", "2026-06-21 10:00:00", "HIGH", 5));
}

#[test]
fn request_and_response_framing() {
    assert_eq!(request_line("\"Status\""), "\"Status\"\n");
    assert_eq!(response_json("  {\"Status\":{}}\r\n"), "{\"Status\":{}}");
}

#[test]
fn scan_request_message_names_path() {
    assert_eq!(scan_request_message("/tmp/x"), "🔍 Daemon'a tarama isteği gönderiliyor: /tmp/x");
}

#[test]
fn path_cut_boundary_check() {
    assert!(cuts_on_boundary("/tmp/a.sh", 22));
    assert!(cuts_on_boundary("/home/user/downloads/suspicious-installer.exe", 22));
    assert!(cuts_on_boundary("üüüüüüüüüüüüüü", 22));
    // 21 ASCII bytes and then a two-byte character: byte 22 falls inside it.
    assert!(!cuts_on_boundary("aaaaaaaaaaaaaaaaaaaaaüü", 22));
}

#[test]
fn events_list_time_chrono_cannot_show_is_empty() {
    let events = vec![ScanEvent { detected_at: i64::MAX, severity: "low".to_string(), finding_count: 1 }];
    let lines = events_lines(&events);
    assert_eq!(lines[2], format!("{:<36} {:<12} {}", "", "LOW", 1));
}

#[test]
fn daemon_starts_now() {
    let before = std::time::SystemTime::now()
        .duration_since(std::time::UNIX_EPOCH)
        .unwrap()
        .as_secs();
    let s = DaemonState::new(Vec::new());
    assert!(s.started_at >= before && s.started_at <= before + 5);
}
