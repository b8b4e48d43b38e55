use remindbot::calendar::{
    current_local_time, date_exists, day_exists, day_number_of, is_leap, time_exists, Date,
    LocalDateTime, TimeOfDay,
};

#[test]
fn day_numbers() {
    assert_eq!(day_number_of(1, 1, 1), 0);
    assert_eq!(day_number_of(1970, 1, 1), 719162);
    assert_eq!(day_number_of(2024, 1, 1), 738885);
    assert_eq!(day_number_of(2024, 12, 27), 739246);
    assert_eq!(day_number_of(2025, 1, 1) - day_number_of(2024, 1, 1), 366);
    assert_eq!(day_number_of(2024, 3, 1) - day_number_of(2024, 2, 28), 2);
}

#[test]
fn leap_years() {
    assert!(is_leap(2024));
    assert!(is_leap(2000));
    assert!(!is_leap(1900));
    assert!(!is_leap(2023));
}

#[test]
fn calendar_days_through_chrono() {
    assert!(date_exists(2024, 2, 29));
    assert!(!date_exists(2023, 2, 29));
    assert!(!date_exists(2024, 4, 31));
    assert!(!date_exists(0, 1, 1));
    assert!(!date_exists(10000, 1, 1));
    assert!(day_exists(10000, 1, 1));
    assert!(!day_exists(2024, 13, 1));
    assert!(time_exists(23, 59));
    assert!(!time_exists(24, 0));
    assert!(!time_exists(0, 60));
}

#[test]
fn instants() {
    let t = LocalDateTime {
        date: Date { year: 2024, month: 12, day: 27 },
        time: TimeOfDay { hour: 9, minute: 0 },
        second: 0,
    };
    assert_eq!(t.instant_secs(), 63870886800);
    let u = LocalDateTime { second: 59, ..t };
    assert_eq!(u.instant_secs(), 63870886859);
}

#[test]
fn clock_reads_a_calendar_time() {
    let now = current_local_time().expect("clock within supported years");
    assert!(now.date.year >= 2020);
    assert!(date_exists(now.date.year, now.date.month, now.date.day));
    assert!(time_exists(now.time.hour, now.time.minute));
    assert!(now.second < 60);
}
