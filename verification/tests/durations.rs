use break_enforcer::decimal::{parse_u64_dec, u64_to_2digits, u64_to_string};
use break_enforcer::install::{build_service_args, fmt_dur};
use break_enforcer::cli::RunArgs;
use break_enforcer::integration::NotificationType;

#[test]
fn test_fmt_dur() {
    assert_eq!(&fmt_dur(8 * 60 * 60 + 4 * 60 + 5), "08:04:05");

    assert_eq!(&fmt_dur(0), "0s");
    assert_eq!(&fmt_dur(61), "01:01");
}

#[test]
fn decimal_rendering() {
    assert_eq!(&u64_to_string(0), "0");
    assert_eq!(&u64_to_string(7), "7");
    assert_eq!(&u64_to_string(10), "10");
    assert_eq!(&u64_to_string(90210), "90210");
    assert_eq!(&u64_to_string(u64::MAX), "18446744073709551615");
    assert_eq!(&u64_to_2digits(0), "00");
    assert_eq!(&u64_to_2digits(9), "09");
    assert_eq!(&u64_to_2digits(59), "59");
    assert_eq!(&u64_to_2digits(123), "123");
}

#[test]
fn decimal_parsing() {
    assert_eq!(parse_u64_dec(&b"0".to_vec()), Some(0));
    assert_eq!(parse_u64_dec(&b"42".to_vec()), Some(42));
    assert_eq!(parse_u64_dec(&b"18446744073709551615".to_vec()), Some(u64::MAX));
    // one past the largest value overflows
    assert_eq!(parse_u64_dec(&b"18446744073709551616".to_vec()), None);
    assert_eq!(parse_u64_dec(&b"".to_vec()), None);
    assert_eq!(parse_u64_dec(&b"12a".to_vec()), None);
    assert_eq!(parse_u64_dec(&b"-1".to_vec()), None);
}

#[test]
fn service_args_full() {
    let args = RunArgs {
        work_duration: 25 * 60 * 1000,
        break_duration: 5 * 60 * 1000,
        long_break_duration: None,
        work_between_long_breaks: None,
        lock_warning: Some(90 * 1000),
        lock_warning_type: vec![NotificationType::System, NotificationType::Audio],
        tcp_api: true,
        status_file: true,
        notifications: false,
    };
    let argv = build_service_args(&args, Some("/etc/blocklist.toml".to_string()));
    let expected = vec![
        "--config-path",
        "/etc/blocklist.toml",
        "run",
        "--work-duration",
        "25:00",
        "--break-duration",
        "05:00",
        "--lock-warning",
        "01:30",
        "--lock-warning-type",
        "system",
        "--lock-warning-type",
        "audio",
        "--status-file",
        "--tcp-api",
    ];
    assert_eq!(argv, expected);
}

#[test]
fn service_args_minimal() {
    let args = RunArgs {
        work_duration: 10_000,
        break_duration: 3_000,
        long_break_duration: None,
        work_between_long_breaks: None,
        lock_warning: None,
        lock_warning_type: vec![],
        tcp_api: false,
        status_file: false,
        notifications: false,
    };
    let argv = build_service_args(&args, None);
    assert_eq!(argv, vec!["run", "--work-duration", "10s", "--break-duration", "3s"]);
}
