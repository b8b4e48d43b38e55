use remindbot::calendar::{Date, TimeOfDay};
use remindbot::parse::{
    parse_birth_date, parse_full_date, parse_preping, parse_text, parse_time, BirthDate,
    InputError,
};

#[test]
fn birth_date_without_year() {
    assert_eq!(parse_birth_date("01:01"), Ok(BirthDate { day: 1, month: 1, year: None }));
    assert_eq!(parse_birth_date("29:02"), Ok(BirthDate { day: 29, month: 2, year: None }));
    assert_eq!(parse_birth_date("31:12"), Ok(BirthDate { day: 31, month: 12, year: None }));
}

#[test]
fn birth_date_with_year() {
    assert_eq!(
        parse_birth_date("15:06:1990"),
        Ok(BirthDate { day: 15, month: 6, year: Some(1990) })
    );
    assert_eq!(
        parse_birth_date("29:02:2024"),
        Ok(BirthDate { day: 29, month: 2, year: Some(2024) })
    );
}

#[test]
fn birth_date_invalid_calendar_day() {
    assert_eq!(parse_birth_date("30:02"), Err(InputError::InvalidCalendarDate));
    assert_eq!(parse_birth_date("31:04"), Err(InputError::InvalidCalendarDate));
    assert_eq!(parse_birth_date("29:02:2023"), Err(InputError::InvalidCalendarDate));
    assert_eq!(parse_birth_date("29:02:1900"), Err(InputError::InvalidCalendarDate));
}

#[test]
fn birth_date_malformed() {
    assert_eq!(parse_birth_date(""), Err(InputError::Malformed));
    assert_eq!(parse_birth_date("12"), Err(InputError::Malformed));
    assert_eq!(parse_birth_date("1:2:3:4"), Err(InputError::Malformed));
    assert_eq!(parse_birth_date("aa:01"), Err(InputError::Malformed));
    assert_eq!(parse_birth_date("01:"), Err(InputError::Malformed));
    assert_eq!(parse_birth_date("32:01"), Err(InputError::Malformed));
    assert_eq!(parse_birth_date("00:01"), Err(InputError::Malformed));
    assert_eq!(parse_birth_date("01:13"), Err(InputError::Malformed));
    assert_eq!(parse_birth_date("01:01:0"), Err(InputError::Malformed));
    assert_eq!(parse_birth_date("01:01:10000"), Err(InputError::Malformed));
    assert_eq!(parse_birth_date(" 1:01"), Err(InputError::Malformed));
    assert_eq!(parse_birth_date("+1:01"), Err(InputError::Malformed));
}

#[test]
fn full_date_cases() {
    assert_eq!(parse_full_date("15:03:2025"), Ok(Date { year: 2025, month: 3, day: 15 }));
    assert_eq!(parse_full_date("15:03"), Err(InputError::Malformed));
    assert_eq!(parse_full_date("31:04:2025"), Err(InputError::InvalidCalendarDate));
    assert_eq!(parse_full_date("29:02:2000"), Ok(Date { year: 2000, month: 2, day: 29 }));
    assert_eq!(parse_full_date("x:03:2025"), Err(InputError::Malformed));
}

#[test]
fn time_cases() {
    assert_eq!(parse_time("09:00"), Ok(TimeOfDay { hour: 9, minute: 0 }));
    assert_eq!(parse_time("23:59"), Ok(TimeOfDay { hour: 23, minute: 59 }));
    assert_eq!(parse_time("24:00"), Err(InputError::Malformed));
    assert_eq!(parse_time("12:60"), Err(InputError::Malformed));
    assert_eq!(parse_time("9"), Err(InputError::Malformed));
    assert_eq!(parse_time("9:00:00"), Err(InputError::Malformed));
}

#[test]
fn preping_cases() {
    assert_eq!(parse_preping("0"), Ok(None));
    assert_eq!(parse_preping("5"), Ok(Some(5)));
    assert_eq!(parse_preping("255"), Ok(Some(255)));
    assert_eq!(parse_preping("256"), Err(InputError::Malformed));
    assert_eq!(parse_preping("-1"), Err(InputError::Malformed));
    assert_eq!(parse_preping(""), Err(InputError::Malformed));
}

#[test]
fn text_cases() {
    assert_eq!(parse_text("Mom"), Ok("Mom".to_string()));
    assert_eq!(parse_text("call: the bank"), Ok("call: the bank".to_string()));
    assert_eq!(parse_text(""), Err(InputError::Malformed));
}
