use snap_marketplace::dates::{parse_date, parse_optional_date, timestamp_or_error};

#[test]
fn dates_and_times() {
    assert_eq!(parse_date("1970-01-01 00:00:00").unwrap(), 0);
    assert_eq!(parse_date("2024-02-29 12:34:56").unwrap(), 1_709_210_096);
}

#[test]
fn a_date_alone_is_its_first_second() {
    assert_eq!(parse_date("2024-02-29").unwrap(), 1_709_164_800);
    assert_eq!(parse_date("2024-02-29").unwrap(), parse_date("2024-02-29 00:00:00").unwrap());
    assert_eq!(parse_date("2024-02-29").unwrap() % 86_400, 0);
}

#[test]
fn times_before_1970_wrap_around() {
    assert_eq!(parse_date("1969-12-31 23:59:59").unwrap(), u64::MAX);
    assert_eq!(timestamp_or_error(Some(-2), "").unwrap(), u64::MAX - 1);
    assert_eq!(timestamp_or_error(Some(7), "").unwrap(), 7);
}

#[test]
fn other_texts_are_refused() {
    for text in ["2023-02-29", "tomorrow", "", "2024-02-29 25:00:00", "2024-02-29T12:00:00"] {
        let message = parse_date(text).unwrap_err().message();
        assert_eq!(
            message,
            format!(
                "invalid datetime '{text}' — expected \"YYYY-MM-DD HH:MM:SS\" or \"YYYY-MM-DD\""
            )
        );
    }
    assert_eq!(
        timestamp_or_error(None, "x").unwrap_err().message(),
        parse_date("x").unwrap_err().message()
    );
}

#[test]
fn dates_that_were_not_given() {
    assert_eq!(parse_optional_date(None).unwrap(), None);
    assert_eq!(parse_optional_date(Some("1970-01-02")).unwrap(), Some(86_400));
    assert!(parse_optional_date(Some("soon")).is_err());
}

#[test]
fn both_forms_of_a_date_agree() {
    let day = 86_400;
    let dates = [
        ("1970-01-01", 0),
        ("1970-03-01", 59),
        ("1972-02-29", 789),
        ("1999-12-31", 10_956),
        ("2000-02-29", 11_016),
        ("2100-03-01", 47_541),
        ("9999-12-31", 2_932_896),
    ];
    for (date, days) in dates {
        assert_eq!(parse_date(date).unwrap(), days * day);
        assert_eq!(parse_date(&format!("{date} 00:00:00")).unwrap(), days * day);
    }
    assert_eq!(parse_date("0000-01-01").unwrap(), 0u64.wrapping_sub(719_528 * day));
}

#[test]
fn later_texts_are_later_times() {
    let texts = [
        "1970-01-01 00:00:00",
        "1970-01-01 00:00:59",
        "1970-01-01 00:01:00",
        "1970-01-01 23:59:59",
        "1970-01-02 00:00:00",
        "1970-01-31 12:00:00",
        "1970-02-01 00:00:00",
        "1999-12-31 23:59:59",
        "2000-01-01 00:00:00",
        "2000-02-29 23:59:59",
        "2000-03-01 00:00:00",
        "9999-12-31 23:59:59",
    ];
    for pair in texts.windows(2) {
        assert!(pair[0] < pair[1]);
        assert!(parse_date(pair[0]).unwrap() < parse_date(pair[1]).unwrap());
    }
}

#[test]
fn days_and_times_that_there_are_not() {
    for text in [
        "2100-02-29",
        "2100-02-29 00:00:00",
        "2024-00-10",
        "2024-13-10 00:00:00",
        "2024-04-31",
        "2024-01-00",
        "2024-01-10 24:00:00",
        "2024-01-10 00:60:00",
        "2024-01-10 00:00:61",
    ] {
        assert!(parse_date(text).is_err());
    }
}
