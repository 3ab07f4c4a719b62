//! The update controller: when the data is refreshed, and what follows a
//! refresh.
//!
//! The controller decides; the caller acts. Each decision is an `Action`
//! that the caller performs, and what comes of it is handed back as an
//! `Event`. A refresh that succeeds while the server is serving ends in a
//! request to restart, so that a new process opens the new data. A refresh
//! that fails leaves everything as it was.

use vstd::prelude::*;
use vstd::slice::slice_subrange;
use crate::text::{all_digits, number, read_decimal};

verus! {

/// Whether the data is refreshed periodically.
#[derive(Clone, Copy, Debug, PartialEq, Eq, Structural)]
pub enum UpdateSchedule {
    /// Never.
    Disabled,
    /// Every so many seconds.
    Enabled(u64),
}

/// The seconds that a unit of time stands for: `s`, `m`, `h` or `d`.
pub open spec fn unit_seconds(c: u8) -> Option<int> {
    if c == 0x73 {
        Some(1)
    } else if c == 0x6d {
        Some(60)
    } else if c == 0x68 {
        Some(3600)
    } else if c == 0x64 {
        Some(86400)
    } else {
        None
    }
}

/// The seconds that an interval's text writes, if it writes an interval: a
/// decimal number, and after it one unit or none, which is seconds. `90`,
/// `90s`, `15m`, `12h` and `7d` are intervals. The seconds must fit in 64
/// bits.
pub open spec fn interval_of(text: Seq<u8>) -> Option<u64> {
    if text.len() == 0 {
        None
    } else {
        let (digits, factor) = match unit_seconds(text.last()) {
            Some(factor) => (text.drop_last(), factor),
            None => (text, 1),
        };
        if digits.len() >= 1 && all_digits(digits, 10) && number(digits, 10) * factor
            <= u64::MAX {
            Some((number(digits, 10) * factor) as u64)
        } else {
            None
        }
    }
}

/// The schedule that a setting asks for: none without a setting, else the
/// interval that the setting writes.
pub open spec fn schedule_of(setting: Option<Seq<u8>>) -> Option<UpdateSchedule> {
    match setting {
        None => Some(UpdateSchedule::Disabled),
        Some(text) => match interval_of(text) {
            Some(seconds) => Some(UpdateSchedule::Enabled(seconds)),
            None => None,
        },
    }
}

/// The seconds of a unit of time.
fn unit_of(c: u8) -> (r: Option<u64>)
    ensures
        match r {
            Some(factor) => unit_seconds(c) == Some(factor as int),
            None => unit_seconds(c) is None,
        },
{
    if c == 0x73 {
        Some(1)
    } else if c == 0x6d {
        Some(60)
    } else if c == 0x68 {
        Some(3600)
    } else if c == 0x64 {
        Some(86400)
    } else {
        None
    }
}

/// Reads an interval from its text and gives it in seconds.
pub fn parse_interval(text: &[u8]) -> (r: Option<u64>)
    ensures
        r == interval_of(text@),
{
    let n: usize = text.len();
    if n == 0 {
        return None;
    }
    match unit_of(text[n - 1]) {
        Some(factor) => {
            let digits = slice_subrange(text, 0, n - 1);
            proof {
                assert(digits@ =~= text@.drop_last());
            }
            match read_decimal(digits) {
                Some(count) => count.checked_mul(factor),
                None => None,
            }
        },
        None => read_decimal(text),
    }
}

impl UpdateSchedule {
    /// Makes the schedule from the interval's setting, if there is one.
    /// Without a setting the data is never refreshed; a setting that writes
    /// no interval is refused.
    pub fn from_setting(setting: Option<&[u8]>) -> (r: Option<UpdateSchedule>)
        ensures
            r == schedule_of(
                match setting {
                    Some(text) => Some(text@),
                    None => None,
                },
            ),
    {
        match setting {
            None => Some(UpdateSchedule::Disabled),
            Some(text) => match parse_interval(text) {
                Some(seconds) => Some(UpdateSchedule::Enabled(seconds)),
                None => None,
            },
        }
    }
}

/// What the controller is doing.
#[derive(Clone, Copy, Debug, PartialEq, Eq, Structural)]
pub enum Phase {
    /// Waiting for the timer, if there is one.
    Idle,
    /// A refresh is running.
    Updating,
    /// The controller has handed off or given up. Nothing follows.
    Finished,
}

/// What happened outside.
#[derive(Clone, Copy, Debug, PartialEq, Eq, Structural)]
pub enum Event {
    /// The timer that was armed has run out.
    TimerFired,
    /// The refresh that was started has ended well.
    UpdateSucceeded,
    /// The refresh that was started could not be launched or ended badly.
    UpdateFailed,
}

/// What the caller is to do next.
#[derive(Clone, Copy, Debug, PartialEq, Eq, Structural)]
pub enum Action {
    /// Nothing: go on as before.
    Nothing,
    /// Run the refresh and report how it ended.
    RunUpdate,
    /// Arm the timer for so many seconds and report when it runs out.
    Wait(u64),
    /// Stop serving and end the process with success, to be started again.
    Restart,
    /// Give up: there is no data to serve.
    Abort,
}

/// The controller's state.
#[derive(Clone, Copy, Debug, PartialEq, Eq, Structural)]
pub struct Controller {
    pub schedule: UpdateSchedule,
    pub phase: Phase,
    /// Whether there is data that the server serves.
    pub serving: bool,
}

/// The action that arms the timer of a schedule, if it has one.
pub open spec fn rearm(schedule: UpdateSchedule) -> Action {
    match schedule {
        UpdateSchedule::Enabled(seconds) => Action::Wait(seconds),
        UpdateSchedule::Disabled => Action::Nothing,
    }
}

/// The controller at startup, and its first action. With data on disk the
/// server serves and the timer is armed; without, a first refresh runs
/// before anything is served.
pub open spec fn initial(schedule: UpdateSchedule, database_present: bool) -> (Controller, Action) {
    if database_present {
        (Controller { schedule, phase: Phase::Idle, serving: true }, rearm(schedule))
    } else {
        (Controller { schedule, phase: Phase::Updating, serving: false }, Action::RunUpdate)
    }
}

/// The controller after an event, and the action that answers the event.
pub open spec fn next(c: Controller, event: Event) -> (Controller, Action) {
    match (c.phase, event) {
        (Phase::Idle, Event::TimerFired) => match c.schedule {
            UpdateSchedule::Enabled(_) => (
                Controller { phase: Phase::Updating, ..c },
                Action::RunUpdate,
            ),
            UpdateSchedule::Disabled => (c, Action::Nothing),
        },
        (Phase::Updating, Event::UpdateSucceeded) => if c.serving {
            (Controller { phase: Phase::Finished, serving: false, ..c }, Action::Restart)
        } else {
            (Controller { phase: Phase::Idle, serving: true, ..c }, rearm(c.schedule))
        },
        (Phase::Updating, Event::UpdateFailed) => if c.serving {
            (Controller { phase: Phase::Idle, ..c }, rearm(c.schedule))
        } else {
            (Controller { phase: Phase::Finished, ..c }, Action::Abort)
        },
        _ => (c, Action::Nothing),
    }
}

/// The controller after a run of events.
pub open spec fn after(c: Controller, events: Seq<Event>) -> Controller
    decreases events.len(),
{
    if events.len() == 0 {
        c
    } else {
        next(after(c, events.drop_last()), events.last()).0
    }
}

/// The actions that answer a run of events, one for each.
pub open spec fn actions(c: Controller, events: Seq<Event>) -> Seq<Action>
    decreases events.len(),
{
    if events.len() == 0 {
        Seq::<Action>::empty()
    } else {
        actions(c, events.drop_last()).push(
            next(after(c, events.drop_last()), events.last()).1,
        )
    }
}

/// How often an action occurs in a run of actions.
pub open spec fn count(actions: Seq<Action>, action: Action) -> nat
    decreases actions.len(),
{
    if actions.len() == 0 {
        0
    } else {
        count(actions.drop_last(), action) + if actions.last() == action {
            1nat
        } else {
            0nat
        }
    }
}

impl Controller {
    /// What holds of every controller that `start` and `step` produce: while
    /// idle the server serves, once finished it does not, and a refresh
    /// beside a serving server runs only under a schedule.
    pub open spec fn wf(&self) -> bool {
        &&& self.phase == Phase::Idle ==> self.serving
        &&& self.phase == Phase::Finished ==> !self.serving
        &&& self.phase == Phase::Updating && self.serving ==> self.schedule is Enabled
    }

    /// Starts the controller. `database_present` says whether the database
    /// file is on disk.
    pub fn start(schedule: UpdateSchedule, database_present: bool) -> (r: (Controller, Action))
        ensures
            r == initial(schedule, database_present),
            r.0.wf(),
    {
        if database_present {
            let first = match schedule {
                UpdateSchedule::Enabled(seconds) => Action::Wait(seconds),
                UpdateSchedule::Disabled => Action::Nothing,
            };
            (Controller { schedule, phase: Phase::Idle, serving: true }, first)
        } else {
            (Controller { schedule, phase: Phase::Updating, serving: false }, Action::RunUpdate)
        }
    }

    /// Takes an event and says what to do next. An event that does not
    /// belong to the phase changes nothing.
    pub fn step(&mut self, event: Event) -> (action: Action)
        ensures
            (*final(self), action) == next(*old(self), event),
            old(self).wf() ==> final(self).wf(),
    {
        let timer = match self.schedule {
            UpdateSchedule::Enabled(seconds) => Action::Wait(seconds),
            UpdateSchedule::Disabled => Action::Nothing,
        };
        match (self.phase, event) {
            (Phase::Idle, Event::TimerFired) => match self.schedule {
                UpdateSchedule::Enabled(_) => {
                    self.phase = Phase::Updating;
                    Action::RunUpdate
                },
                UpdateSchedule::Disabled => Action::Nothing,
            },
            (Phase::Updating, Event::UpdateSucceeded) => if self.serving {
                self.phase = Phase::Finished;
                self.serving = false;
                Action::Restart
            } else {
                self.phase = Phase::Idle;
                self.serving = true;
                timer
            },
            (Phase::Updating, Event::UpdateFailed) => if self.serving {
                self.phase = Phase::Idle;
                timer
            } else {
                self.phase = Phase::Finished;
                Action::Abort
            },
            _ => Action::Nothing,
        }
    }

    /// Whether the server serves requests.
    pub fn is_serving(&self) -> (b: bool)
        ensures
            b == self.serving,
    {
        self.serving
    }
}

/// Every step keeps the controller well formed and its schedule unchanged.
pub proof fn lemma_next_wf(c: Controller, event: Event)
    requires
        c.wf(),
    ensures
        next(c, event).0.wf(),
        next(c, event).0.schedule == c.schedule,
{
}

/// Every run of events keeps the controller well formed and its schedule
/// unchanged, and is answered by one action for each event.
pub proof fn lemma_after_wf(c: Controller, events: Seq<Event>)
    requires
        c.wf(),
    ensures
        after(c, events).wf(),
        after(c, events).schedule == c.schedule,
        actions(c, events).len() == events.len(),
    decreases events.len(),
{
    if events.len() > 0 {
        lemma_after_wf(c, events.drop_last());
        lemma_next_wf(after(c, events.drop_last()), events.last());
    }
}

/// A refresh that succeeds beside a serving server is answered by a request
/// to restart, and the server stops serving.
pub proof fn lemma_success_restarts(c: Controller)
    requires
        c.wf(),
        c.phase == Phase::Updating,
        c.serving,
    ensures
        next(c, Event::UpdateSucceeded).1 == Action::Restart,
        next(c, Event::UpdateSucceeded).0.phase == Phase::Finished,
        !next(c, Event::UpdateSucceeded).0.serving,
{
}

/// Once finished, the controller stays finished whatever happens: the
/// server never serves again, and no further action is asked for.
pub proof fn lemma_finished_is_final(c: Controller, events: Seq<Event>)
    requires
        c.phase == Phase::Finished,
        !c.serving,
    ensures
        after(c, events) == c,
        forall|i: int| 0 <= i < events.len() ==> actions(c, events)[i] == Action::Nothing,
        actions(c, events).len() == events.len(),
    decreases events.len(),
{
    if events.len() > 0 {
        lemma_finished_is_final(c, events.drop_last());
    }
}

/// Whatever happens, a restart is requested at most once, and it is
/// requested only by a controller that then is finished.
pub proof fn lemma_restart_at_most_once(c: Controller, events: Seq<Event>)
    requires
        c.wf(),
    ensures
        count(actions(c, events), Action::Restart) <= 1,
        count(actions(c, events), Action::Restart) == 1 ==> after(c, events).phase
            == Phase::Finished,
    decreases events.len(),
{
    if events.len() > 0 {
        let before = events.drop_last();
        lemma_restart_at_most_once(c, before);
        lemma_after_wf(c, before);
        assert(actions(c, events).drop_last() =~= actions(c, before));
    }
}

/// A refresh that fails beside a serving server changes nothing but the
/// phase: the server goes on serving, and the timer is armed once more, for
/// the schedule's interval.
pub proof fn lemma_failure_keeps_serving(c: Controller)
    requires
        c.wf(),
        c.phase == Phase::Updating,
        c.serving,
    ensures
        next(c, Event::UpdateFailed).0.serving,
        next(c, Event::UpdateFailed).0.phase == Phase::Idle,
        next(c, Event::UpdateFailed).0.schedule == c.schedule,
        c.schedule matches UpdateSchedule::Enabled(seconds) && next(c, Event::UpdateFailed).1
            == Action::Wait(seconds),
{
}

/// Without a schedule, a controller that is idle never starts a refresh and
/// never arms a timer, whatever happens.
pub proof fn lemma_disabled_never_wakes(c: Controller, events: Seq<Event>)
    requires
        c.wf(),
        c.schedule == UpdateSchedule::Disabled,
        c.phase == Phase::Idle,
    ensures
        after(c, events) == c,
        forall|i: int| 0 <= i < events.len() ==> actions(c, events)[i] == Action::Nothing,
        actions(c, events).len() == events.len(),
    decreases events.len(),
{
    if events.len() > 0 {
        lemma_disabled_never_wakes(c, events.drop_last());
    }
}

/// A first refresh that fails, with no data on disk, ends in giving up; one
/// that succeeds starts the service.
pub proof fn lemma_bootstrap(schedule: UpdateSchedule)
    ensures
        initial(schedule, false).1 == Action::RunUpdate,
        !initial(schedule, false).0.serving,
        next(initial(schedule, false).0, Event::UpdateFailed).1 == Action::Abort,
        next(initial(schedule, false).0, Event::UpdateSucceeded).0.serving,
        next(initial(schedule, false).0, Event::UpdateSucceeded).0.phase == Phase::Idle,
        next(initial(schedule, false).0, Event::UpdateSucceeded).1 == rearm(schedule),
{
}

} // verus!
