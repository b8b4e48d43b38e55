use remindbot::builder::{BirthdayBuildState, Command, SimpleNotificationBuildState, State};
use remindbot::calendar::{Date, TimeOfDay};
use remindbot::parse::InputError;
use remindbot::reminder::Notification;

#[test]
fn birthday_conversation() {
    let mut s = State::default();
    assert!(matches!(s, State::Start));
    assert_eq!(s.step("hello"), Err(InputError::Malformed));
    s.on_command(Command::AddBirthday);
    assert!(matches!(s, State::BirthdayBuild(BirthdayBuildState::Name)));
    assert_eq!(s.step("Ann"), Ok(()));
    assert_eq!(s.step("30:02"), Err(InputError::InvalidCalendarDate));
    assert_eq!(s.step("3-4"), Err(InputError::Malformed));
    assert!(matches!(&s, State::BirthdayBuild(BirthdayBuildState::Date { name }) if name == "Ann"));
    assert_eq!(s.step("04:03:1990"), Ok(()));
    assert_eq!(s.step("many"), Err(InputError::Malformed));
    assert_eq!(s.step("3"), Ok(()));
    assert!(s.take_ready().is_none());
    assert_eq!(s.step("25:00"), Err(InputError::Malformed));
    assert_eq!(s.step("08:30"), Ok(()));
    match &s {
        State::BirthdayBuild(BirthdayBuildState::Build(b)) => {
            assert!(!b.enabled);
            assert_eq!(b.name, "Ann");
            assert_eq!((b.bday, b.bmonth, b.byear), (4, 3, Some(1990)));
            assert_eq!(b.preping, Some(3));
            assert_eq!(b.daytime_to_ping, TimeOfDay { hour: 8, minute: 30 });
        }
        _ => panic!("birthday not built"),
    }
    assert_eq!(s.step("more"), Err(InputError::Malformed));
    match s.take_ready() {
        Some(Notification::Birthday(b)) => {
            assert!(b.enabled);
            assert_eq!(b.name, "Ann");
        }
        _ => panic!("no birthday handed over"),
    }
    assert!(matches!(s, State::Start));
}

#[test]
fn birthday_without_year_and_preping() {
    let mut s = State::BirthdayBuild(BirthdayBuildState::Name);
    assert_eq!(s.step(""), Err(InputError::Malformed));
    assert_eq!(s.step("Bob"), Ok(()));
    assert_eq!(s.step("12:12"), Ok(()));
    assert_eq!(s.step("0"), Ok(()));
    assert_eq!(s.step("9:5"), Ok(()));
    match s.take_ready() {
        Some(Notification::Birthday(b)) => {
            assert_eq!(b.byear, None);
            assert_eq!(b.preping, None);
            assert_eq!(b.daytime_to_ping, TimeOfDay { hour: 9, minute: 5 });
        }
        _ => panic!("no birthday handed over"),
    }
}

#[test]
fn simple_notification_conversation() {
    let mut s = State::Start;
    s.on_command(Command::Help);
    assert!(matches!(s, State::Start));
    s.on_command(Command::SimpleNotification);
    assert!(matches!(s, State::SimpleNotificationBuild(SimpleNotificationBuildState::Text)));
    assert_eq!(s.step("pay rent"), Ok(()));
    assert_eq!(s.step("01:03"), Err(InputError::Malformed));
    assert_eq!(s.step("31:02:2025"), Err(InputError::InvalidCalendarDate));
    assert_eq!(s.step("01:03:2025"), Ok(()));
    assert_eq!(s.step("10:05"), Ok(()));
    match s.take_ready() {
        Some(Notification::Simple(n)) => {
            assert!(n.enabled);
            assert_eq!(n.text, "pay rent");
            assert_eq!(n.date, Date { year: 2025, month: 3, day: 1 });
            assert_eq!(n.daytime, TimeOfDay { hour: 10, minute: 5 });
        }
        _ => panic!("no notification handed over"),
    }
    assert!(matches!(s, State::Start));
}

#[test]
fn new_command_abandons_a_build() {
    let mut s = State::Start;
    s.on_command(Command::SimpleNotification);
    assert_eq!(s.step("x"), Ok(()));
    s.on_command(Command::AddBirthday);
    assert!(matches!(s, State::BirthdayBuild(BirthdayBuildState::Name)));
}
