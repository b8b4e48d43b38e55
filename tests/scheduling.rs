use remindbot::calendar::{Date, LocalDateTime, TimeOfDay};
use remindbot::registry::Registry;
use remindbot::reminder::{Birthday, Notification, SimpleNotification};
use remindbot::task::{Task, TaskAction, TaskCommand, TaskEvent};

fn at(year: i32, month: u32, day: u32, hour: u32, minute: u32) -> LocalDateTime {
    LocalDateTime { date: Date { year, month, day }, time: TimeOfDay { hour, minute }, second: 0 }
}

fn simple() -> Notification {
    Notification::Simple(SimpleNotification {
        enabled: true,
        text: "pay rent".to_string(),
        date: Date { year: 2025, month: 3, day: 1 },
        daytime: TimeOfDay { hour: 10, minute: 0 },
    })
}

fn ann() -> Notification {
    Notification::Birthday(Birthday {
        enabled: true,
        name: "Ann".to_string(),
        bday: 1,
        bmonth: 1,
        byear: None,
        preping: Some(5),
        daytime_to_ping: TimeOfDay { hour: 9, minute: 0 },
    })
}

#[test]
fn one_shot_fires_once_and_leaves_registry() {
    let mut reg: Registry<u32> = Registry::new();
    let (id, prev) = reg.activate("pay rent".to_string(), 7);
    assert!(prev.is_none());
    let mut t = Task::new(simple());
    let now = at(2025, 3, 1, 9, 0);
    match t.step(TaskEvent::Wake, &now) {
        TaskAction::Sleep { secs } => assert_eq!(secs, 3600),
        other => panic!("unexpected {:?}", other),
    }
    match t.step(TaskEvent::TimerElapsed, &at(2025, 3, 1, 10, 0)) {
        TaskAction::Fire { message, finish } => {
            assert_eq!(message, "pay rent");
            assert!(finish);
        }
        other => panic!("unexpected {:?}", other),
    }
    assert!(reg.remove(&"pay rent".to_string(), id));
    assert!(reg.lookup(&"pay rent".to_string()).is_none());
}

#[test]
fn past_one_shot_fires_without_delay() {
    let mut t = Task::new(simple());
    match t.step(TaskEvent::Wake, &at(2026, 1, 1, 0, 0)) {
        TaskAction::Sleep { secs } => assert_eq!(secs, 0),
        other => panic!("unexpected {:?}", other),
    }
}

#[test]
fn birthday_fires_then_schedules_next_year() {
    let mut t = Task::new(ann());
    let now = at(2024, 1, 1, 10, 0);
    let first = at(2024, 12, 27, 9, 0).instant_secs();
    match t.step(TaskEvent::Wake, &now) {
        TaskAction::Sleep { secs } => {
            assert_eq!(secs as i64, first - now.instant_secs());
        }
        other => panic!("unexpected {:?}", other),
    }
    assert_eq!(t.pending, Some(first));
    let fired_at = at(2024, 12, 27, 9, 0);
    match t.step(TaskEvent::TimerElapsed, &fired_at) {
        TaskAction::Fire { message, finish } => {
            assert_eq!(message, "Ann");
            assert!(!finish);
        }
        other => panic!("unexpected {:?}", other),
    }
    // same second: the fired occurrence is not fired again
    match t.step(TaskEvent::Wake, &fired_at) {
        TaskAction::Sleep { secs } => assert_eq!(secs, 1),
        other => panic!("unexpected {:?}", other),
    }
    assert_eq!(t.pending, None);
    let later = LocalDateTime { second: 1, ..fired_at };
    match t.step(TaskEvent::TimerElapsed, &later) {
        TaskAction::Sleep { .. } => {}
        other => panic!("unexpected {:?}", other),
    }
    assert_eq!(t.pending, Some(at(2025, 12, 27, 9, 0).instant_secs()));
}

#[test]
fn disable_waits_and_enable_reschedules() {
    let mut t = Task::new(ann());
    let now = at(2024, 6, 1, 0, 0);
    assert!(matches!(t.step(TaskEvent::Wake, &now), TaskAction::Sleep { .. }));
    assert!(matches!(t.step(TaskEvent::Command(TaskCommand::Disable), &now), TaskAction::WaitForCommand));
    assert!(!t.notification.enabled());
    assert_eq!(t.pending, None);
    assert!(matches!(t.step(TaskEvent::Wake, &now), TaskAction::WaitForCommand));
    match t.step(TaskEvent::Command(TaskCommand::Enable), &now) {
        TaskAction::Sleep { secs } => assert!(secs > 0),
        other => panic!("unexpected {:?}", other),
    }
    assert_eq!(t.pending, Some(at(2024, 12, 27, 9, 0).instant_secs()));
}

#[test]
fn delete_ends_a_sleeping_task() {
    let mut reg: Registry<u32> = Registry::new();
    let (id, _) = reg.activate("Ann".to_string(), 1);
    let mut t = Task::new(ann());
    let now = at(2024, 1, 2, 0, 0);
    match t.step(TaskEvent::Wake, &now) {
        TaskAction::Sleep { secs } => assert!(secs > 86400 * 300),
        other => panic!("unexpected {:?}", other),
    }
    assert!(matches!(t.step(TaskEvent::Command(TaskCommand::Delete), &now), TaskAction::Finish));
    assert!(reg.remove(&"Ann".to_string(), id));
    assert!(reg.list().is_empty());
}

#[test]
fn same_name_twice_keeps_one_task() {
    let mut reg: Registry<u32> = Registry::new();
    let (id1, prev1) = reg.activate("Ann".to_string(), 1);
    let (id2, prev2) = reg.activate("Ann".to_string(), 2);
    assert_eq!(prev1, None);
    assert_eq!(prev2, Some(1));
    assert_ne!(id1, id2);
    assert_eq!(reg.list(), vec!["Ann".to_string()]);
    assert_eq!(reg.lookup(&"Ann".to_string()), Some(&2));
    // the replaced task, ending, does not remove its successor
    assert!(!reg.remove(&"Ann".to_string(), id1));
    assert_eq!(reg.lookup(&"Ann".to_string()), Some(&2));
    assert!(reg.remove(&"Ann".to_string(), id2));
    assert_eq!(reg.lookup(&"Ann".to_string()), None);
}

#[test]
fn registry_lists_names() {
    let mut reg: Registry<u32> = Registry::new();
    reg.activate("a".to_string(), 1);
    reg.activate("b".to_string(), 2);
    let mut names = reg.list();
    names.sort();
    assert_eq!(names, vec!["a".to_string(), "b".to_string()]);
    assert_eq!(reg.lookup(&"c".to_string()), None);
}
