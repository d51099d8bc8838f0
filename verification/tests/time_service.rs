use singletask::time::{age_in_minutes, now, parse_date, parse_datetime, timezone_from_str, Date};

#[test]
fn test_timezone_from_string() {
    assert_eq!(
        timezone_from_str("America/Los_Angeles"),
        Ok(chrono_tz::Tz::America__Los_Angeles),
    );

    assert_eq!(timezone_from_str("GMT -7:00"), Ok(chrono_tz::Tz::Etc__GMTPlus7),);
}

#[test]
fn timezone_positive_offset() {
    assert_eq!(timezone_from_str("GMT +5:00"), Ok(chrono_tz::Tz::Etc__GMTMinus5));
    assert_eq!(timezone_from_str("GMT +0"), Ok(chrono_tz::Tz::Etc__GMTMinus0));
    assert_eq!(timezone_from_str("GMT -7"), Ok(chrono_tz::Tz::Etc__GMTPlus7));
    assert_eq!(timezone_from_str("GMT +11:00"), Ok(chrono_tz::Tz::Etc__GMTMinus11));
}

#[test]
fn timezone_unparseable() {
    let err = timezone_from_str("not a zone").unwrap_err();
    assert_eq!(err.code, 500);
    assert_eq!(err.source, "parse_timezone");

    let err = timezone_from_str("GMT -99:00").unwrap_err();
    assert_eq!(err.code, 500);
    assert_eq!(err.source, "parse_timezone");

    let err = timezone_from_str("GMT +").unwrap_err();
    assert_eq!(err.source, "parse_timezone");
}

#[test]
fn age_truncates_toward_zero() {
    assert_eq!(age_in_minutes(0, 900), 15);
    assert_eq!(age_in_minutes(0, 899), 14);
    assert_eq!(age_in_minutes(900, 0), -15);
    assert_eq!(age_in_minutes(0, 59), 0);
    assert_eq!(age_in_minutes(59, 0), 0);
}

#[test]
fn now_is_after_the_twentieth_century() {
    assert!(now() > 1_600_000_000);
}

#[test]
fn parse_date_accepts_real_dates() {
    assert_eq!(parse_date("2024-02-29"), Ok(Date { year: 2024, month: 2, day: 29 }));
    assert_eq!(parse_date("1970-01-01"), Ok(Date { year: 1970, month: 1, day: 1 }));
}

#[test]
fn parse_date_rejects_bad_dates() {
    assert!(parse_date("2023-02-29").is_err());
    assert!(parse_date("2024-13-01").is_err());
    assert!(parse_date("2024-00-10").is_err());
    assert!(parse_date("2024-1-2").is_err());
    assert!(parse_date("today").is_err());
    let err = parse_date("2024-04-31").unwrap_err();
    assert_eq!(err.code, 500);
    assert_eq!(err.source, "time");
}

#[test]
fn parse_datetime_utc_forms() {
    let utc = chrono_tz::Tz::UTC;
    assert_eq!(parse_datetime("2024-01-02T03:04:05Z", &utc), Ok(1_704_164_645));
    assert_eq!(parse_datetime("2024-01-02T03:04:05", &utc), Ok(1_704_164_645));
    assert_eq!(parse_datetime("2024-01-02", &utc), Ok(1_704_239_940));
}

#[test]
fn parse_datetime_local_zone() {
    let la = chrono_tz::Tz::America__Los_Angeles;
    // 03:04:05 in Los Angeles is 11:04:05 UTC in January (UTC-8).
    assert_eq!(parse_datetime("2024-01-02T03:04:05", &la), Ok(1_704_193_445));
}

#[test]
fn parse_datetime_rejects_other_lengths() {
    let utc = chrono_tz::Tz::UTC;
    assert!(parse_datetime("2024-01-02T03:04", &utc).is_err());
    assert!(parse_datetime("", &utc).is_err());
    assert!(parse_datetime("2024-01-02T03:04:05X", &utc).is_err());
    let err = parse_datetime("2024-01-02T25:00:00", &utc).unwrap_err();
    assert_eq!(err.code, 500);
    assert_eq!(err.source, "time");
}
