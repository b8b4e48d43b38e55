use remindbot::calendar::{Date, LocalDateTime, TimeOfDay};
use remindbot::reminder::{Birthday, Notification, SimpleNotification};

fn at(year: i32, month: u32, day: u32, hour: u32, minute: u32) -> LocalDateTime {
    LocalDateTime { date: Date { year, month, day }, time: TimeOfDay { hour, minute }, second: 0 }
}

fn birthday(day: u32, month: u32, preping: Option<u8>, hour: u32, minute: u32) -> Birthday {
    Birthday {
        enabled: true,
        name: "Ann".to_string(),
        bday: day,
        bmonth: month,
        byear: None,
        preping,
        daytime_to_ping: TimeOfDay { hour, minute },
    }
}

#[test]
fn birthday_with_preping_rolls_to_next_year() {
    let b = birthday(1, 1, Some(5), 9, 0);
    let now = at(2024, 1, 1, 10, 0);
    assert_eq!(b.next_ping(&now), Some(at(2024, 12, 27, 9, 0).instant_secs()));
    assert_eq!(b.next_ping(&now), Some(63870886800));
}

#[test]
fn birthday_later_this_year() {
    let b = birthday(15, 6, None, 8, 30);
    assert_eq!(b.next_ping(&at(2024, 3, 1, 0, 0)), Some(at(2024, 6, 15, 8, 30).instant_secs()));
    // at the very instant, the occurrence still counts
    assert_eq!(b.next_ping(&at(2024, 6, 15, 8, 30)), Some(at(2024, 6, 15, 8, 30).instant_secs()));
    assert_eq!(b.next_ping(&at(2024, 6, 15, 8, 31)), Some(at(2025, 6, 15, 8, 30).instant_secs()));
}

#[test]
fn birthday_preping_inside_the_year() {
    let b = birthday(10, 3, Some(10), 12, 0);
    assert_eq!(b.next_ping(&at(2023, 1, 1, 0, 0)), Some(at(2023, 2, 28, 12, 0).instant_secs()));
    assert_eq!(b.next_ping(&at(2024, 1, 1, 0, 0)), Some(at(2024, 2, 29, 12, 0).instant_secs()));
}

#[test]
fn leap_day_birthday_waits_for_a_leap_year() {
    let b = birthday(29, 2, None, 9, 0);
    assert_eq!(b.next_ping(&at(2024, 3, 1, 0, 0)), Some(at(2028, 2, 29, 9, 0).instant_secs()));
    assert_eq!(b.next_ping(&at(2096, 3, 1, 0, 0)), Some(at(2104, 2, 29, 9, 0).instant_secs()));
}

#[test]
fn disabled_birthday_has_no_trigger() {
    let mut b = birthday(1, 1, None, 9, 0);
    b.enabled = false;
    assert_eq!(b.next_ping(&at(2024, 1, 1, 0, 0)), None);
}

#[test]
fn disable_then_enable() {
    let mut n = Notification::Birthday(birthday(20, 5, Some(2), 7, 15));
    let disabled_at = at(2024, 5, 18, 7, 15);
    n.disable();
    assert!(!n.enabled());
    assert_eq!(n.next_ping(&disabled_at), None);
    n.enable();
    assert!(n.enabled());
    let enabled_at = at(2024, 5, 18, 7, 16);
    let t = n.next_ping(&enabled_at).unwrap();
    assert!(t > disabled_at.instant_secs());
    assert_eq!(t, at(2025, 5, 18, 7, 15).instant_secs());
}

#[test]
fn simple_notification_fires_at_its_instant() {
    let mut s = SimpleNotification {
        enabled: true,
        text: "pay rent".to_string(),
        date: Date { year: 2025, month: 3, day: 1 },
        daytime: TimeOfDay { hour: 10, minute: 5 },
    };
    assert_eq!(s.next_ping(), Some(at(2025, 3, 1, 10, 5).instant_secs()));
    s.enabled = false;
    assert_eq!(s.next_ping(), None);
}

#[test]
fn notification_accessors() {
    let n = Notification::Birthday(birthday(1, 1, Some(3), 9, 0));
    assert_eq!(n.message(), "Ann");
    assert_eq!(n.name(), "Ann");
    assert_eq!(n.preping(), Some(3));
    assert!(n.is_recurring());
    let s = Notification::Simple(SimpleNotification {
        enabled: false,
        text: "dentist".to_string(),
        date: Date { year: 2025, month: 3, day: 1 },
        daytime: TimeOfDay { hour: 10, minute: 5 },
    });
    assert_eq!(s.message(), "dentist");
    assert_eq!(s.preping(), None);
    assert!(!s.is_recurring());
    assert!(!s.enabled());
}
