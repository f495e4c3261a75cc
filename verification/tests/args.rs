use life::args::{parse_duration, select_update, StartupError, UpdateType};

#[test]
fn parse_duration_reads_decimal() {
    assert_eq!(parse_duration(b"0"), Some(0));
    assert_eq!(parse_duration(b"123"), Some(123));
    assert_eq!(parse_duration(b"007"), Some(7));
    assert_eq!(parse_duration(b"18446744073709551615"), Some(u64::MAX));
}

#[test]
fn parse_duration_rejects_malformed() {
    assert_eq!(parse_duration(b"abc"), None);
    assert_eq!(parse_duration(b""), None);
    assert_eq!(parse_duration(b"12a"), None);
    assert_eq!(parse_duration(b"-5"), None);
    assert_eq!(parse_duration(b"1 2"), None);
}

#[test]
fn parse_duration_rejects_overflow() {
    assert_eq!(parse_duration(b"18446744073709551616"), None);
    assert_eq!(parse_duration(b"99999999999999999999999"), None);
}

#[test]
fn select_update_manual() {
    assert_eq!(select_update("manualy", None), Ok(UpdateType::Manualy));
    assert_eq!(
        select_update("manualy", Some(b"10")),
        Ok(UpdateType::Manualy)
    );
}

#[test]
fn select_update_auto_with_delay() {
    assert_eq!(select_update("auto", Some(b"250")), Ok(UpdateType::Auto(250)));
}

#[test]
fn select_update_unknown_policy() {
    assert_eq!(
        select_update("fast", Some(b"250")),
        Err(StartupError::UnknownPolicy)
    );
    assert_eq!(select_update("", None), Err(StartupError::UnknownPolicy));
}

#[test]
fn select_update_missing_duration() {
    assert_eq!(select_update("auto", None), Err(StartupError::MissingDuration));
}

#[test]
fn select_update_malformed_duration_aborts_startup() {
    // the malformed delay is refused before any grid exists
    assert_eq!(
        select_update("auto", Some(b"abc")),
        Err(StartupError::BadDuration)
    );
}
