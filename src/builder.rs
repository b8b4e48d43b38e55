//! The conversational builders: one state machine per reminder kind that
//! collects the fields in a fixed order, one line per turn.

use crate::calendar::{Date, MAX_YEAR, is_valid_date, is_valid_day_month};
use crate::parse::{
    BirthDate, InputError, birth_date_of, full_date_of, parse_birth_date, parse_full_date,
    parse_preping, parse_text, parse_time, preping_of, time_of,
};
use crate::reminder::{Birthday, Notification, SimpleNotification};
use vstd::prelude::*;

verus! {

/// Where a birthday builder stands; each state holds exactly the fields
/// collected so far.
#[derive(Clone, Debug)]
pub enum BirthdayBuildState {
    Name,
    Date { name: String },
    Preping { name: String, date: BirthDate },
    DaytimeToPing { name: String, date: BirthDate, preping: Option<u8> },
    Build(Birthday),
}

/// Where a simple-notification builder stands.
#[derive(Clone, Debug)]
pub enum SimpleNotificationBuildState {
    Text,
    Date { text: String },
    Time { text: String, date: Date },
    Build(SimpleNotification),
}

/// The conversation's state: idle, or building a reminder.
#[derive(Clone, Debug)]
pub enum State {
    Start,
    BirthdayBuild(BirthdayBuildState),
    SimpleNotificationBuild(SimpleNotificationBuildState),
}

/// The commands understood while idle.
#[derive(Clone, Copy, Debug, PartialEq, Eq, Structural)]
pub enum Command {
    Help,
    AddBirthday,
    SimpleNotification,
}

impl BirthDate {
    pub open spec fn wf(&self) -> bool {
        &&& is_valid_day_month(self.day as int, self.month as int)
        &&& self.year matches Some(y) ==> 1 <= y <= MAX_YEAR && is_valid_date(
            y as int,
            self.month as int,
            self.day as int,
        )
    }
}

impl BirthdayBuildState {
    pub open spec fn wf(&self) -> bool {
        match self {
            BirthdayBuildState::Preping { date, .. } => date.wf(),
            BirthdayBuildState::DaytimeToPing { date, .. } => date.wf(),
            BirthdayBuildState::Build(b) => b.wf() && !b.enabled,
            _ => true,
        }
    }

    /// Why `line` is refused in this state, if it is.
    pub open spec fn refusal(&self, line: Seq<char>) -> Option<InputError> {
        match self {
            BirthdayBuildState::Name => if line.len() == 0 {
                Some(InputError::Malformed)
            } else {
                None
            },
            BirthdayBuildState::Date { .. } => match birth_date_of(line) {
                Ok(_) => None,
                Err(e) => Some(e),
            },
            BirthdayBuildState::Preping { .. } => match preping_of(line) {
                Ok(_) => None,
                Err(e) => Some(e),
            },
            BirthdayBuildState::DaytimeToPing { .. } => match time_of(line) {
                Ok(_) => None,
                Err(e) => Some(e),
            },
            BirthdayBuildState::Build(_) => Some(InputError::Malformed),
        }
    }

    /// `next` is this state with the field that `line` gives filled in.
    pub open spec fn advances_to(&self, line: Seq<char>, next: BirthdayBuildState) -> bool {
        match self {
            BirthdayBuildState::Name => next matches BirthdayBuildState::Date { name } && name@
                == line,
            BirthdayBuildState::Date { name } => birth_date_of(line) matches Ok(d) && next
                == (BirthdayBuildState::Preping { name: *name, date: d }),
            BirthdayBuildState::Preping { name, date } => preping_of(line) matches Ok(p) && next
                == (BirthdayBuildState::DaytimeToPing { name: *name, date: *date, preping: p }),
            BirthdayBuildState::DaytimeToPing { name, date, preping } => time_of(line) matches Ok(
                t,
            ) && next == BirthdayBuildState::Build(
                Birthday {
                    enabled: false,
                    name: *name,
                    bday: date.day,
                    bmonth: date.month,
                    byear: date.year,
                    preping: *preping,
                    daytime_to_ping: t,
                },
            ),
            BirthdayBuildState::Build(_) => false,
        }
    }

    /// The state after `line`, or why `line` is refused.
    pub fn next(&self, line: &str) -> (r: Result<BirthdayBuildState, InputError>)
        requires
            self.wf(),
        ensures
            r is Ok <==> self.refusal(line@) is None,
            r matches Err(e) ==> self.refusal(line@) == Some(e),
            r matches Ok(n) ==> self.advances_to(line@, n) && n.wf(),
    {
        match self {
            BirthdayBuildState::Name => match parse_text(line) {
                Ok(name) => Ok(BirthdayBuildState::Date { name }),
                Err(e) => Err(e),
            },
            BirthdayBuildState::Date { name } => match parse_birth_date(line) {
                Ok(date) => Ok(BirthdayBuildState::Preping { name: name.clone(), date }),
                Err(e) => Err(e),
            },
            BirthdayBuildState::Preping { name, date } => match parse_preping(line) {
                Ok(preping) => Ok(
                    BirthdayBuildState::DaytimeToPing { name: name.clone(), date: *date, preping },
                ),
                Err(e) => Err(e),
            },
            BirthdayBuildState::DaytimeToPing { name, date, preping } => match parse_time(line) {
                Ok(t) => Ok(
                    BirthdayBuildState::Build(
                        Birthday {
                            enabled: false,
                            name: name.clone(),
                            bday: date.day,
                            bmonth: date.month,
                            byear: date.year,
                            preping: *preping,
                            daytime_to_ping: t,
                        },
                    ),
                ),
                Err(e) => Err(e),
            },
            BirthdayBuildState::Build(_) => Err(InputError::Malformed),
        }
    }
}

impl SimpleNotificationBuildState {
    pub open spec fn wf(&self) -> bool {
        match self {
            SimpleNotificationBuildState::Time { date, .. } => date.wf(),
            SimpleNotificationBuildState::Build(s) => s.wf() && !s.enabled,
            _ => true,
        }
    }

    /// Why `line` is refused in this state, if it is.
    pub open spec fn refusal(&self, line: Seq<char>) -> Option<InputError> {
        match self {
            SimpleNotificationBuildState::Text => if line.len() == 0 {
                Some(InputError::Malformed)
            } else {
                None
            },
            SimpleNotificationBuildState::Date { .. } => match full_date_of(line) {
                Ok(_) => None,
                Err(e) => Some(e),
            },
            SimpleNotificationBuildState::Time { .. } => match time_of(line) {
                Ok(_) => None,
                Err(e) => Some(e),
            },
            SimpleNotificationBuildState::Build(_) => Some(InputError::Malformed),
        }
    }

    /// `next` is this state with the field that `line` gives filled in.
    pub open spec fn advances_to(&self, line: Seq<char>, next: SimpleNotificationBuildState) -> bool {
        match self {
            SimpleNotificationBuildState::Text => next matches SimpleNotificationBuildState::Date {
                text,
            } && text@ == line,
            SimpleNotificationBuildState::Date { text } => full_date_of(line) matches Ok(d) && next
                == (SimpleNotificationBuildState::Time { text: *text, date: d }),
            SimpleNotificationBuildState::Time { text, date } => time_of(line) matches Ok(t) && next
                == SimpleNotificationBuildState::Build(
                SimpleNotification { enabled: false, text: *text, date: *date, daytime: t },
            ),
            SimpleNotificationBuildState::Build(_) => false,
        }
    }

    /// The state after `line`, or why `line` is refused.
    pub fn next(&self, line: &str) -> (r: Result<SimpleNotificationBuildState, InputError>)
        requires
            self.wf(),
        ensures
            r is Ok <==> self.refusal(line@) is None,
            r matches Err(e) ==> self.refusal(line@) == Some(e),
            r matches Ok(n) ==> self.advances_to(line@, n) && n.wf(),
    {
        match self {
            SimpleNotificationBuildState::Text => match parse_text(line) {
                Ok(text) => Ok(SimpleNotificationBuildState::Date { text }),
                Err(e) => Err(e),
            },
            SimpleNotificationBuildState::Date { text } => match parse_full_date(line) {
                Ok(date) => Ok(SimpleNotificationBuildState::Time { text: text.clone(), date }),
                Err(e) => Err(e),
            },
            SimpleNotificationBuildState::Time { text, date } => match parse_time(line) {
                Ok(t) => Ok(
                    SimpleNotificationBuildState::Build(
                        SimpleNotification {
                            enabled: false,
                            text: text.clone(),
                            date: *date,
                            daytime: t,
                        },
                    ),
                ),
                Err(e) => Err(e),
            },
            SimpleNotificationBuildState::Build(_) => Err(InputError::Malformed),
        }
    }
}

impl Default for State {
    /// A conversation starts idle.
    fn default() -> (r: State)
        ensures
            r == State::Start,
    {
        State::Start
    }
}

impl State {
    pub open spec fn wf(&self) -> bool {
        match self {
            State::Start => true,
            State::BirthdayBuild(b) => b.wf(),
            State::SimpleNotificationBuild(s) => s.wf(),
        }
    }

    /// Why `line` is refused in this state, if it is; while idle only
    /// commands are taken.
    pub open spec fn refusal(&self, line: Seq<char>) -> Option<InputError> {
        match self {
            State::Start => Some(InputError::Malformed),
            State::BirthdayBuild(b) => b.refusal(line),
            State::SimpleNotificationBuild(s) => s.refusal(line),
        }
    }

    pub open spec fn advances_to(&self, line: Seq<char>, next: State) -> bool {
        match self {
            State::Start => false,
            State::BirthdayBuild(b) => next matches State::BirthdayBuild(n) && b.advances_to(
                line,
                n,
            ),
            State::SimpleNotificationBuild(s) => next matches State::SimpleNotificationBuild(n)
                && s.advances_to(line, n),
        }
    }

    /// The state that a command leads to.
    pub open spec fn after_command(&self, cmd: Command) -> State {
        match cmd {
            Command::Help => *self,
            Command::AddBirthday => State::BirthdayBuild(BirthdayBuildState::Name),
            Command::SimpleNotification => State::SimpleNotificationBuild(
                SimpleNotificationBuildState::Text,
            ),
        }
    }

    /// The reminder that a completed build yields, enabled.
    pub open spec fn ready(&self) -> Option<Notification> {
        match self {
            State::BirthdayBuild(BirthdayBuildState::Build(b)) => Some(
                Notification::Birthday(Birthday { enabled: true, ..*b }),
            ),
            State::SimpleNotificationBuild(SimpleNotificationBuildState::Build(s)) => Some(
                Notification::Simple(SimpleNotification { enabled: true, ..*s }),
            ),
            _ => None,
        }
    }

    /// A command starts a build (abandoning any build in progress) or, for
    /// `Help`, changes nothing.
    pub fn on_command(&mut self, cmd: Command)
        requires
            old(self).wf(),
        ensures
            *final(self) == old(self).after_command(cmd),
            final(self).wf(),
    {
        match cmd {
            Command::Help => {},
            Command::AddBirthday => {
                *self = State::BirthdayBuild(BirthdayBuildState::Name);
            },
            Command::SimpleNotification => {
                *self = State::SimpleNotificationBuild(SimpleNotificationBuildState::Text);
            },
        }
    }

    /// Takes one line: fills in the field the state expects and moves on,
    /// or refuses the line and stays where it is.
    pub fn step(&mut self, line: &str) -> (r: Result<(), InputError>)
        requires
            old(self).wf(),
        ensures
            final(self).wf(),
            r is Ok <==> old(self).refusal(line@) is None,
            r matches Err(e) ==> old(self).refusal(line@) == Some(e) && *final(self) == *old(self),
            r is Ok ==> old(self).advances_to(line@, *final(self)),
    {
        let next = match self {
            State::Start => Err(InputError::Malformed),
            State::BirthdayBuild(b) => match b.next(line) {
                Ok(n) => Ok(State::BirthdayBuild(n)),
                Err(e) => Err(e),
            },
            State::SimpleNotificationBuild(s) => match s.next(line) {
                Ok(n) => Ok(State::SimpleNotificationBuild(n)),
                Err(e) => Err(e),
            },
        };
        match next {
            Ok(n) => {
                *self = n;
                Ok(())
            },
            Err(e) => Err(e),
        }
    }

    /// Hands over a completed reminder, enabled, and returns to idle;
    /// any other state is left as it is.
    pub fn take_ready(&mut self) -> (r: Option<Notification>)
        requires
            old(self).wf(),
        ensures
            r == old(self).ready(),
            r is Some ==> *final(self) == State::Start,
            r is None ==> *final(self) == *old(self),
            r matches Some(n) ==> n.wf() && n.is_enabled(),
            final(self).wf(),
    {
        let ready = match self {
            State::BirthdayBuild(BirthdayBuildState::Build(b)) => Some(
                Notification::Birthday(
                    Birthday {
                        enabled: true,
                        name: b.name.clone(),
                        bday: b.bday,
                        bmonth: b.bmonth,
                        byear: b.byear,
                        preping: b.preping,
                        daytime_to_ping: b.daytime_to_ping,
                    },
                ),
            ),
            State::SimpleNotificationBuild(SimpleNotificationBuildState::Build(s)) => Some(
                Notification::Simple(
                    SimpleNotification {
                        enabled: true,
                        text: s.text.clone(),
                        date: s.date,
                        daytime: s.daytime,
                    },
                ),
            ),
            _ => None,
        };
        if ready.is_some() {
            *self = State::Start;
        }
        ready
    }
}

} // verus!
