//! The decisions of a scheduling task. A task owns one reminder; the
//! runtime around it performs each action (sleep, wait for a command, send)
//! and reports back what happened.

use crate::calendar::LocalDateTime;
use crate::reminder::{Notification, lemma_next_occurrence_not_before};
use crate::registry::removed;
use vstd::prelude::*;

verus! {

/// A control command sent to a running task.
#[derive(Clone, Copy, Debug, PartialEq, Eq, Structural)]
pub enum TaskCommand {
    Enable,
    Disable,
    Delete,
}

/// What happened to a task since its last action.
#[derive(Clone, Copy, Debug, PartialEq, Eq, Structural)]
pub enum TaskEvent {
    /// The task starts, or a short retry sleep ended.
    Wake,
    /// The sleep of the last `Sleep` action ran out.
    TimerElapsed,
    /// A control command arrived.
    Command(TaskCommand),
}

/// What the runtime does next for a task.
#[derive(Clone, Debug)]
pub enum TaskAction {
    /// Sleep `secs` seconds, woken early by any control command.
    Sleep { secs: u64 },
    /// Wait for a control command, with no timer.
    WaitForCommand,
    /// Send `message`; then stop if `finish`, else report `Wake`.
    Fire { message: String, finish: bool },
    /// Leave the registry and stop.
    Finish,
}

/// One reminder's scheduling state.
#[derive(Clone, Debug)]
pub struct Task {
    pub notification: Notification,
    /// The occurrence that the current sleep is waiting for.
    pub pending: Option<i64>,
    /// The last occurrence fired, never fired twice.
    pub last_fired: Option<i64>,
}

impl Task {
    pub open spec fn wf(&self) -> bool {
        self.notification.wf()
    }

    pub fn new(notification: Notification) -> (r: Task)
        requires
            notification.wf(),
        ensures
            r.wf(),
            r.notification == notification,
            r.pending is None,
            r.last_fired is None,
    {
        Task { notification, pending: None, last_fired: None }
    }

    /// The decision when the task is free to schedule: wait while disabled,
    /// stop when there is nothing left to fire, otherwise sleep until the
    /// next occurrence (briefly, if that occurrence has fired already).
    pub open spec fn schedules(&self, now: LocalDateTime, next: Task, a: TaskAction) -> bool {
        &&& next.notification == self.notification
        &&& next.last_fired == self.last_fired
        &&& match self.notification.next_ping_at(now) {
            None => next.pending is None && if self.notification.is_enabled() {
                a is Finish
            } else {
                a is WaitForCommand
            },
            Some(t) => if self.last_fired == Some(t as i64) {
                next.pending is None && a == (TaskAction::Sleep { secs: 1 })
            } else {
                &&& next.pending == Some(t as i64)
                &&& a matches TaskAction::Sleep { secs } && secs == (if t >= now.instant() {
                    t - now.instant()
                } else {
                    0
                })
            },
        }
    }

    fn schedule(&mut self, now: &LocalDateTime) -> (a: TaskAction)
        requires
            old(self).wf(),
            now.wf(),
        ensures
            final(self).wf(),
            old(self).schedules(*now, *final(self), a),
    {
        match self.notification.next_ping(now) {
            None => {
                self.pending = None;
                if self.notification.enabled() {
                    TaskAction::Finish
                } else {
                    TaskAction::WaitForCommand
                }
            },
            Some(t) => {
                if self.last_fired == Some(t) {
                    self.pending = None;
                    TaskAction::Sleep { secs: 1 }
                } else {
                    self.pending = Some(t);
                    let n = now.instant_secs();
                    let secs: u64 = if t >= n {
                        (t - n) as u64
                    } else {
                        0
                    };
                    TaskAction::Sleep { secs }
                }
            },
        }
    }

    /// `next` and `a` are the state and action after `event` at `now`.
    pub open spec fn steps(&self, event: TaskEvent, now: LocalDateTime, next: Task, a: TaskAction) -> bool {
        match event {
            TaskEvent::Command(TaskCommand::Delete) => a is Finish && next == *self,
            TaskEvent::Command(TaskCommand::Disable) => {
                &&& a is WaitForCommand
                &&& next.notification == self.notification.with_enabled(false)
                &&& next.pending is None
                &&& next.last_fired == self.last_fired
            },
            TaskEvent::Command(TaskCommand::Enable) => (Task {
                notification: self.notification.with_enabled(true),
                ..*self
            }).schedules(now, next, a),
            TaskEvent::Wake => self.schedules(now, next, a),
            TaskEvent::TimerElapsed => match self.pending {
                None => self.schedules(now, next, a),
                Some(t) => {
                    &&& a matches TaskAction::Fire { message, finish } && message@
                        == self.notification.message_view() && finish == !self.notification.recurs()
                    &&& next.notification == self.notification
                    &&& next.pending is None
                    &&& next.last_fired == Some(t)
                },
            },
        }
    }

    /// Reacts to one event at local time `now`.
    pub fn step(&mut self, event: TaskEvent, now: &LocalDateTime) -> (a: TaskAction)
        requires
            old(self).wf(),
            now.wf(),
        ensures
            final(self).wf(),
            old(self).steps(event, *now, *final(self), a),
    {
        match event {
            TaskEvent::Command(TaskCommand::Delete) => TaskAction::Finish,
            TaskEvent::Command(TaskCommand::Disable) => {
                self.notification.disable();
                self.pending = None;
                TaskAction::WaitForCommand
            },
            TaskEvent::Command(TaskCommand::Enable) => {
                self.notification.enable();
                self.schedule(now)
            },
            TaskEvent::Wake => self.schedule(now),
            TaskEvent::TimerElapsed => match self.pending {
                Some(t) => {
                    self.pending = None;
                    self.last_fired = Some(t);
                    TaskAction::Fire {
                        message: self.notification.message(),
                        finish: !self.notification.is_recurring(),
                    }
                },
                None => self.schedule(now),
            },
        }
    }
}

/// `Delete` ends a task in every state, sleeping or not, at once; and
/// once it has left the registry, its name is free.
pub proof fn lemma_delete_ends_task<H>(
    task: Task,
    now: LocalDateTime,
    next: Task,
    a: TaskAction,
    m: Map<Seq<char>, (u64, H)>,
    id: u64,
)
    requires
        task.steps(TaskEvent::Command(TaskCommand::Delete), now, next, a),
        m.contains_key(task.notification.name_view()),
        m[task.notification.name_view()].0 == id,
    ensures
        a is Finish,
        !removed(m, task.notification.name_view(), id).contains_key(task.notification.name_view()),
{
}

/// A simple reminder fires once: when its timer runs out it sends its text
/// and finishes, and after it has left the registry its name is not found.
pub proof fn lemma_one_shot_fires_once<H>(
    task: Task,
    now: LocalDateTime,
    next: Task,
    a: TaskAction,
    m: Map<Seq<char>, (u64, H)>,
    id: u64,
)
    requires
        task.notification is Simple,
        task.pending is Some,
        task.steps(TaskEvent::TimerElapsed, now, next, a),
        m.contains_key(task.notification.name_view()),
        m[task.notification.name_view()].0 == id,
    ensures
        a matches TaskAction::Fire { finish, .. } && finish,
        !removed(m, task.notification.name_view(), id).contains_key(task.notification.name_view()),
{
}

/// A birthday task goes on after firing: it does not finish, and once the
/// clock has passed the fired occurrence it sleeps towards a later one.
pub proof fn lemma_birthday_fires_again(
    task: Task,
    fired_at: LocalDateTime,
    next: Task,
    a: TaskAction,
    later: LocalDateTime,
    after: Task,
    a2: TaskAction,
)
    requires
        task.wf(),
        task.notification is Birthday,
        task.notification.is_enabled(),
        task.pending is Some,
        task.steps(TaskEvent::TimerElapsed, fired_at, next, a),
        later.wf(),
        later.instant() > task.pending->0,
        next.steps(TaskEvent::Wake, later, after, a2),
    ensures
        a matches TaskAction::Fire { finish, .. } && !finish,
        a2 is Sleep,
        after.pending matches Some(t) && t > task.pending->0,
{
    if let Notification::Birthday(b) = task.notification {
        lemma_next_occurrence_not_before(b, later);
    }
}

} // verus!
