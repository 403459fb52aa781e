use defense::log_rotation::{days_to_ymd, is_leap, log_file_name, needs_rotation, MAX_LOG_BYTES};

#[test]
fn days_to_ymd_epoch() {
    assert_eq!(days_to_ymd(0), (1970, 1, 1));
}

#[test]
fn days_to_ymd_known_date() {
    // 2026-06-21 = 20625 days since 1970-01-01
    let (y, m, d) = days_to_ymd(20625);
    assert_eq!((y, m, d), (2026, 6, 21));
}

#[test]
fn days_to_ymd_handles_leap_days_and_year_ends() {
    assert_eq!(days_to_ymd(365), (1971, 1, 1));
    assert_eq!(days_to_ymd(364), (1970, 12, 31));
    // 2000-02-29 is day 11016; 2000 is a leap year although divisible by 100.
    assert_eq!(days_to_ymd(11016), (2000, 2, 29));
    assert_eq!(days_to_ymd(11017), (2000, 3, 1));
    // 2100 is not a leap year: 2100-02-28 is followed by 2100-03-01.
    assert_eq!(days_to_ymd(47540), (2100, 2, 28));
    assert_eq!(days_to_ymd(47541), (2100, 3, 1));
}

#[test]
fn leap_years_follow_the_gregorian_rule() {
    assert!(is_leap(2024));
    assert!(!is_leap(2023));
    assert!(!is_leap(1900));
    assert!(is_leap(2000));
}

#[test]
fn log_file_name_is_zero_padded() {
    assert_eq!(log_file_name(0), "log_1970-01-01.txt");
    assert_eq!(log_file_name(20625), "log_2026-06-21.txt");
}

#[test]
fn rotation_happens_on_size_or_new_day() {
    let a = "log_2026-06-21.txt".to_string();
    let b = "log_2026-06-22.txt".to_string();
    assert!(!needs_rotation(10, &a, &a));
    assert!(needs_rotation(MAX_LOG_BYTES, &a, &a));
    assert!(!needs_rotation(MAX_LOG_BYTES - 1, &a, &a));
    assert!(needs_rotation(0, &a, &b));
}

#[test]
fn today_filename_names_current_day() {
    let secs = std::time::SystemTime::now()
        .duration_since(std::time::UNIX_EPOCH)
        .unwrap()
        .as_secs();
    let name = defense::log_rotation::today_filename();
    let expected = defense::log_rotation::log_file_name(secs / 86400);
    let next = defense::log_rotation::log_file_name(secs / 86400 + 1);
    assert!(name == expected || name == next);
    assert!(name.starts_with("log_20"));
}
