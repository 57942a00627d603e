use waybar_config::error::AppError;
use waybar_config::process::parse_pids;
use waybar_config::process::parse_u32_text;
use waybar_config::process::signal_outcome;
use waybar_config::text::lines_of;
use waybar_config::text::same_text;

#[test]
fn numbers_are_read_as_u32() {
    assert_eq!(parse_u32_text("1234"), Some(1234));
    assert_eq!(parse_u32_text("+7"), Some(7));
    assert_eq!(parse_u32_text("+"), None);
    assert_eq!(parse_u32_text(""), None);
    assert_eq!(parse_u32_text("-1"), None);
    assert_eq!(parse_u32_text("12a"), None);
    assert_eq!(parse_u32_text("4294967295"), Some(u32::MAX));
    assert_eq!(parse_u32_text("4294967296"), None);
    assert_eq!(parse_u32_text("99999999999x"), None);
}

#[test]
fn pids_from_listing() {
    assert_eq!(parse_pids("123\n  456 \r\nabc\n\n789"), vec![123, 456, 789]);
    assert_eq!(parse_pids(""), Vec::<u32>::new());
}

#[test]
fn lines_as_std_splits_them() {
    assert_eq!(lines_of("a\r\nb\n\nc\n"), vec!["a", "b", "", "c"]);
    assert_eq!(lines_of("x\r"), vec!["x\r"]);
    assert!(lines_of("").is_empty());
    assert!(same_text("ab", "ab"));
    assert!(!same_text("ab", "a"));
}

#[test]
fn signal_results() {
    assert!(signal_outcome("reload", true, "boom").is_ok());
    assert!(signal_outcome("reload", false, "").is_ok());
    match signal_outcome("stop", false, "  denied \n") {
        Err(AppError::Internal(m)) => assert_eq!(m, "Failed to stop Waybar: denied"),
        _ => panic!("expected an internal error"),
    }
}
