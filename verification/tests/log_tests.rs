use defense::log::{format_log_line, format_log_line_at, mask_sensitive, Level};

#[test]
fn masks_windows_user_path() {
    let line = mask_sensitive(r"C:\Users\JohnDoe\AppData\evil.exe").unwrap();
    assert!(line.contains("[USER]"));
    assert!(!line.contains("JohnDoe"));
}

#[test]
fn masks_unix_user_path() {
    let line = mask_sensitive("/home/johndoe/downloads/evil.sh").unwrap();
    assert!(line.contains("[USER]"));
    assert!(!line.contains("johndoe"));
}

#[test]
fn masking_rewrites_both_kinds_exactly() {
    assert_eq!(
        mask_sensitive("/home/alice/x and c:\\users\\Bob\\y").unwrap(),
        "/home/[USER]/x and C:\\Users\\[USER]\\y"
    );
    assert_eq!(mask_sensitive("/var/log/syslog").unwrap(), "/var/log/syslog");
}

#[test]
fn log_line_layout() {
    assert_eq!(
        format_log_line_at(1700000000, Level::High, "process", "started"),
        "[1700000000] [HIGH ] [process   ] started"
    );
    assert_eq!(
        format_log_line_at(0, Level::Medium, "a-very-long-category", "m"),
        "[0] [MEDIUM] [a-very-long-category] m"
    );
}

#[test]
fn log_line_masks_the_message() {
    let line = format_log_line(Level::Critical, "fs", "/home/eve/secret").unwrap();
    assert!(line.contains("] [CRIT ] [fs        ] /home/[USER]/secret"));
    assert!(line.starts_with('['));
}

#[test]
fn iso8601_now_is_current_unix_seconds() {
    let before = std::time::SystemTime::now()
        .duration_since(std::time::UNIX_EPOCH)
        .unwrap()
        .as_secs();
    let secs: u64 = defense::log::iso8601_now().parse().unwrap();
    let after = std::time::SystemTime::now()
        .duration_since(std::time::UNIX_EPOCH)
        .unwrap()
        .as_secs();
    assert!(before <= secs && secs <= after);
}
