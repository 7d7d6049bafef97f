//! Keeps the deadline before which the system is never suspended, and decides
//! when a suspend may be asked for.

use vstd::prelude::*;
use crate::config::Config;
use crate::messages::WorkerMsg;
use crate::time::{
    after_millis, after_millis_sum, millis, millis_until, now, whole_millis_until, ClockError,
    MAX_CLOCK_NANOS,
};

verus! {

/// The settings that the sleep manager reads, in milliseconds.
#[derive(Clone, Copy, Debug, PartialEq, Eq, Structural)]
pub struct SleepKnobs {
    pub startup_awake_time: u64,
    pub minimum_awake_time: u64,
    pub stayup_cleared_awake_time: u64,
    pub poll_variable_interval: u64,
    pub test_mode: bool,
}

/// The sleep manager as mathematics. The deadline is in nanoseconds of the clock.
pub struct SleepState {
    pub knobs: SleepKnobs,
    pub nearest_possible_suspend: int,
    pub stayup_active: bool,
    pub suspend_in_progress: bool,
}

/// What can happen to a sleep manager.
pub enum SleepEvent {
    Init,
    Update(bool),
    SystemIsSuspending,
    SystemIsResuming,
}

impl SleepState {
    /// The state of a manager that was just made.
    pub open spec fn fresh(knobs: SleepKnobs) -> SleepState {
        SleepState {
            knobs,
            nearest_possible_suspend: 0,
            stayup_active: true,
            suspend_in_progress: false,
        }
    }

    /// The deadline moves to `delta_ms` after `now`, unless it is later already.
    pub open spec fn bump(self, now: int, delta_ms: int) -> SleepState {
        SleepState {
            nearest_possible_suspend: if self.nearest_possible_suspend >= now + millis(delta_ms) {
                self.nearest_possible_suspend
            } else {
                now + millis(delta_ms)
            },
            ..self
        }
    }

    /// How long a true stayup rule keeps the system up after it was seen.
    pub open spec fn stayup_hold(self) -> int {
        self.knobs.stayup_cleared_awake_time as int + self.knobs.poll_variable_interval as int
    }

    /// The startup awake time starts at `now`.
    pub open spec fn init(self, now: int) -> SleepState {
        self.bump(now, self.knobs.startup_awake_time as int)
    }

    /// Whether a stayup rule is true is recorded; if one is, the system is held up
    /// for the stayup hold from `now`.
    pub open spec fn update(self, now: int, stayup_active: bool) -> SleepState {
        let recorded = SleepState { stayup_active, ..self };
        if stayup_active {
            recorded.bump(now, self.stayup_hold())
        } else {
            recorded
        }
    }

    /// The system is going into suspend.
    pub open spec fn suspending(self) -> SleepState {
        SleepState { suspend_in_progress: true, ..self }
    }

    /// The system has woken at `now`: the minimum awake time starts.
    pub open spec fn resuming(self, now: int) -> SleepState {
        (SleepState { suspend_in_progress: false, ..self }).bump(
            now,
            self.knobs.minimum_awake_time as int,
        )
    }

    /// The deadline has passed and no stayup rule is true.
    pub open spec fn suspend_allowed(self, now: int) -> bool {
        now > self.nearest_possible_suspend && !self.stayup_active
    }

    /// A suspend is asked for: it is allowed and none is under way.
    pub open spec fn suspends(self, now: int) -> bool {
        self.suspend_allowed(now) && !self.suspend_in_progress
    }

    /// What the manager sends at `now`.
    pub open spec fn decision(self, now: int) -> Option<WorkerMsg> {
        if self.suspends(now) {
            Some(WorkerMsg::Suspend(self.knobs.test_mode))
        } else {
            None
        }
    }

    /// The state after `event` at `now`.
    pub open spec fn apply(self, event: SleepEvent, now: int) -> SleepState {
        match event {
            SleepEvent::Init => self.init(now),
            SleepEvent::Update(active) => self.update(now, active),
            SleepEvent::SystemIsSuspending => self.suspending(),
            SleepEvent::SystemIsResuming => self.resuming(now),
        }
    }

    /// The state after a run of events, each with the clock's reading.
    pub open spec fn run(self, events: Seq<(SleepEvent, int)>) -> SleepState
        decreases events.len(),
    {
        if events.len() == 0 {
            self
        } else {
            self.run(events.drop_last()).apply(events.last().0, events.last().1)
        }
    }
}

/// A suspend is asked for exactly when the clock is past the deadline, no stayup
/// rule is true and no suspend is under way; the request carries the test mode.
pub proof fn lemma_suspend_conditions(s: SleepState, now: int)
    ensures
        s.decision(now) is Some <==> now > s.nearest_possible_suspend && !s.stayup_active
            && !s.suspend_in_progress,
        s.decision(now) is Some ==> s.decision(now) == Some(WorkerMsg::Suspend(s.knobs.test_mode)),
{
}

/// While a stayup rule is true no suspend is asked for, whatever the clock reads.
pub proof fn lemma_no_suspend_while_stayup_active(s: SleepState, seen: int, now: int)
    ensures
        s.update(seen, true).decision(now) is None,
        s.stayup_active ==> s.decision(now) is None,
{
}

/// After a stayup rule was seen true at `now`, the deadline is no earlier than
/// `now` plus the cleared-awake time plus the poll interval.
pub proof fn lemma_stayup_holds_deadline(s: SleepState, now: int)
    ensures
        s.update(now, true).nearest_possible_suspend >= now + millis(
            s.knobs.stayup_cleared_awake_time as int + s.knobs.poll_variable_interval as int,
        ),
{
}

/// No event moves the deadline back, and none changes the settings.
pub proof fn lemma_event_keeps_deadline(s: SleepState, event: SleepEvent, now: int)
    ensures
        s.apply(event, now).nearest_possible_suspend >= s.nearest_possible_suspend,
        s.apply(event, now).knobs == s.knobs,
{
}

/// Over any run of events, with any clock readings, the deadline never decreases.
pub proof fn lemma_deadline_never_decreases(s: SleepState, events: Seq<(SleepEvent, int)>)
    ensures
        s.run(events).nearest_possible_suspend >= s.nearest_possible_suspend,
        s.run(events).knobs == s.knobs,
    decreases events.len(),
{
    if events.len() > 0 {
        lemma_deadline_never_decreases(s, events.drop_last());
        lemma_event_keeps_deadline(s.run(events.drop_last()), events.last().0, events.last().1);
    }
}

/// Waking moves the deadline to at least the minimum awake time after `now`, so
/// that no suspend is asked for until that time has passed.
pub proof fn lemma_resume_keeps_awake(s: SleepState, now: int, later: int)
    requires
        later <= now + millis(s.knobs.minimum_awake_time as int),
    ensures
        s.resuming(now).nearest_possible_suspend >= now + millis(
            s.knobs.minimum_awake_time as int,
        ),
        s.resuming(now).decision(later) is None,
        !s.resuming(now).suspend_in_progress,
{
}

/// The sleep manager.
#[derive(Debug)]
pub struct SleepManager {
    knobs: SleepKnobs,
    nearest_possible_suspend: u128,
    stayup_active: bool,
    suspend_in_progress: bool,
}

impl View for SleepManager {
    type V = SleepState;

    closed spec fn view(&self) -> SleepState {
        SleepState {
            knobs: self.knobs,
            nearest_possible_suspend: self.nearest_possible_suspend as int,
            stayup_active: self.stayup_active,
            suspend_in_progress: self.suspend_in_progress,
        }
    }
}

/// The settings of `cfg` that the sleep manager reads.
pub open spec fn knobs_of(cfg: Config) -> SleepKnobs {
    SleepKnobs {
        startup_awake_time: cfg.startup_awake_time,
        minimum_awake_time: cfg.minimum_awake_time,
        stayup_cleared_awake_time: cfg.stayup_cleared_awake_time,
        poll_variable_interval: cfg.poll_variable_interval,
        test_mode: cfg.test_mode,
    }
}

impl SleepManager {
    /// A manager that holds the system up until it is told otherwise.
    pub fn new(cfg: &Config) -> (m: SleepManager)
        ensures
            m@ == SleepState::fresh(knobs_of(*cfg)),
    {
        SleepManager {
            knobs: SleepKnobs {
                startup_awake_time: cfg.startup_awake_time,
                minimum_awake_time: cfg.minimum_awake_time,
                stayup_cleared_awake_time: cfg.stayup_cleared_awake_time,
                poll_variable_interval: cfg.poll_variable_interval,
                test_mode: cfg.test_mode,
            },
            nearest_possible_suspend: 0,
            stayup_active: true,
            suspend_in_progress: false,
        }
    }

    /// The deadline, in nanoseconds of the clock.
    pub fn nearest_possible_suspend(&self) -> (t: u128)
        ensures
            t == self@.nearest_possible_suspend,
    {
        self.nearest_possible_suspend
    }

    /// Whether a stayup rule was true at the last update.
    pub fn is_stayup_active(&self) -> (b: bool)
        ensures
            b == self@.stayup_active,
    {
        self.stayup_active
    }

    /// Whether the system is on its way into suspend.
    pub fn is_suspend_in_progress(&self) -> (b: bool)
        ensures
            b == self@.suspend_in_progress,
    {
        self.suspend_in_progress
    }

    /// The milliseconds until the deadline, and whether a stayup rule is true.
    pub fn status_at(&self, now: u128) -> (r: (u64, bool))
        ensures
            r.0 == whole_millis_until(now as int, self@.nearest_possible_suspend),
            r.1 == self@.stayup_active,
    {
        (millis_until(now, self.nearest_possible_suspend), self.stayup_active)
    }

    fn bump_to(&mut self, target: u128)
        ensures
            final(self)@ == (SleepState {
                nearest_possible_suspend: if old(self)@.nearest_possible_suspend >= target {
                    old(self)@.nearest_possible_suspend
                } else {
                    target as int
                },
                ..old(self)@
            }),
    {
        if self.nearest_possible_suspend < target {
            self.nearest_possible_suspend = target;
        }
    }

    /// Starts the startup awake time at `now`.
    pub fn init_at(&mut self, now: u128)
        requires
            now <= MAX_CLOCK_NANOS,
        ensures
            final(self)@ == old(self)@.init(now as int),
    {
        let target = after_millis(now, self.knobs.startup_awake_time);
        self.bump_to(target);
    }

    /// Records whether a stayup rule is true; if one is, holds the system up for
    /// the cleared-awake time and one poll interval from `now`.
    pub fn update_at(&mut self, now: u128, stayup_active: bool)
        requires
            now <= MAX_CLOCK_NANOS,
        ensures
            final(self)@ == old(self)@.update(now as int, stayup_active),
            final(self)@.nearest_possible_suspend >= old(self)@.nearest_possible_suspend,
            stayup_active ==> final(self)@.nearest_possible_suspend >= now + millis(
                old(self)@.knobs.stayup_cleared_awake_time as int
                    + old(self)@.knobs.poll_variable_interval as int,
            ),
    {
        self.stayup_active = stayup_active;
        if stayup_active {
            let target = after_millis_sum(
                now,
                self.knobs.stayup_cleared_awake_time,
                self.knobs.poll_variable_interval,
            );
            self.bump_to(target);
        }
    }

    /// Records whether a stayup rule is true, and leaves the deadline.
    pub fn record_stayup(&mut self, stayup_active: bool)
        ensures
            final(self)@ == (SleepState { stayup_active, ..old(self)@ }),
    {
        self.stayup_active = stayup_active;
    }

    /// Whether the deadline has passed and no stayup rule is true.
    pub fn is_suspend_allowed_at(&self, now: u128) -> (b: bool)
        ensures
            b == self@.suspend_allowed(now as int),
    {
        now > self.nearest_possible_suspend && !self.stayup_active
    }

    /// The request to suspend, if one is due at `now`. That a suspend is under way
    /// is recorded only when the system says so.
    pub fn suspend_if_allowed_at(&self, now: u128) -> (r: Option<WorkerMsg>)
        ensures
            r == self@.decision(now as int),
            self@.stayup_active ==> r is None,
    {
        if self.is_suspend_allowed_at(now) && !self.suspend_in_progress {
            Some(WorkerMsg::Suspend(self.knobs.test_mode))
        } else {
            None
        }
    }

    /// The system is going into suspend.
    pub fn handle_system_is_suspending(&mut self)
        ensures
            final(self)@ == old(self)@.suspending(),
    {
        self.suspend_in_progress = true;
    }

    /// The system has woken at `now`: the minimum awake time starts.
    pub fn handle_system_is_resuming_at(&mut self, now: u128)
        requires
            now <= MAX_CLOCK_NANOS,
        ensures
            final(self)@ == old(self)@.resuming(now as int),
            final(self)@.nearest_possible_suspend >= old(self)@.nearest_possible_suspend,
    {
        self.suspend_in_progress = false;
        let target = after_millis(now, self.knobs.minimum_awake_time);
        self.bump_to(target);
    }

    /// `init_at` with the clock's reading. Nothing changes when the clock fails.
    pub fn init(&mut self) -> (r: Result<(), ClockError>)
        ensures
            r is Err ==> final(self)@ == old(self)@,
            r is Ok ==> exists|t: int|
                0 <= t <= MAX_CLOCK_NANOS && final(self)@ == #[trigger] old(self)@.init(t),
    {
        match now() {
            Ok(t) => {
                self.init_at(t);
                Ok(())
            },
            Err(e) => Err(e),
        }
    }

    /// Records whether a stayup rule is true; if one is, holds the system up from
    /// the clock's reading on, as `update_at` does. The clock is read only where a
    /// stayup rule is true: that none is true is always recorded. Where the clock
    /// fails the flag is recorded all the same, and the deadline stays.
    pub fn update(&mut self, stayup_active: bool) -> (r: Result<(), ClockError>)
        ensures
            !stayup_active ==> r is Ok && final(self)@ == (SleepState {
                stayup_active: false,
                ..old(self)@
            }),
            r is Err ==> final(self)@ == (SleepState { stayup_active: true, ..old(self)@ }),
            r is Ok ==> exists|t: int|
                0 <= t <= MAX_CLOCK_NANOS && final(self)@ == #[trigger] old(self)@.update(
                    t,
                    stayup_active,
                ),
            final(self)@.nearest_possible_suspend >= old(self)@.nearest_possible_suspend,
    {
        if !stayup_active {
            self.stayup_active = false;
            assert(self@ == old(self)@.update(0, false));
            return Ok(());
        }
        match now() {
            Ok(t) => {
                self.update_at(t, true);
                Ok(())
            },
            Err(e) => {
                self.stayup_active = true;
                Err(e)
            },
        }
    }

    /// Whether the deadline has passed by the clock's reading and no stayup rule is
    /// true. While a stayup rule is true the answer is no, and the clock is not
    /// read.
    pub fn is_suspend_allowed(&self) -> (r: Result<bool, ClockError>)
        ensures
            self@.stayup_active ==> r == Ok::<bool, ClockError>(false),
            r matches Ok(b) ==> exists|t: int|
                0 <= t <= MAX_CLOCK_NANOS && b == #[trigger] self@.suspend_allowed(t),
    {
        if self.stayup_active {
            assert(!self@.suspend_allowed(0));
            return Ok(false);
        }
        match now() {
            Ok(t) => Ok(self.is_suspend_allowed_at(t)),
            Err(e) => Err(e),
        }
    }

    /// The request to suspend, if one is due by the clock's reading. While a
    /// stayup rule is true or a suspend is under way none is due, and the clock is
    /// not read.
    pub fn suspend_if_allowed(&self) -> (r: Result<Option<WorkerMsg>, ClockError>)
        ensures
            self@.stayup_active || self@.suspend_in_progress ==> r == Ok::<
                Option<WorkerMsg>,
                ClockError,
            >(None),
            r matches Ok(d) ==> exists|t: int|
                0 <= t <= MAX_CLOCK_NANOS && d == #[trigger] self@.decision(t),
    {
        if self.stayup_active || self.suspend_in_progress {
            assert(self@.decision(0) is None);
            return Ok(None);
        }
        match now() {
            Ok(t) => Ok(self.suspend_if_allowed_at(t)),
            Err(e) => Err(e),
        }
    }

    /// `handle_system_is_resuming_at` with the clock's reading. When the clock
    /// fails, only the end of the suspend is recorded.
    pub fn handle_system_is_resuming(&mut self) -> (r: Result<(), ClockError>)
        ensures
            r is Err ==> final(self)@ == (SleepState { suspend_in_progress: false, ..old(self)@ }),
            r is Ok ==> exists|t: int|
                0 <= t <= MAX_CLOCK_NANOS && final(self)@ == #[trigger] old(self)@.resuming(t),
            final(self)@.nearest_possible_suspend >= old(self)@.nearest_possible_suspend,
    {
        match now() {
            Ok(t) => {
                self.handle_system_is_resuming_at(t);
                Ok(())
            },
            Err(e) => {
                self.suspend_in_progress = false;
                Err(e)
            },
        }
    }
}

} // verus!
