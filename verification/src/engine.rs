//! The engine: takes one message at a time, hands it to the three managers, and
//! says what to ask of the worker.

use vstd::prelude::*;
use crate::categories::{def_names, def_views};
use crate::config::Config;
use crate::messages::{msgs_view, EngineMsg, WorkerMsg, WorkerMsgView};
use crate::rule_manager::{
    all_compile, evaluated, lemma_active_iff_some_true, rule_names, rule_views,
    script_constants, some_true, RuleManager, RuleState,
};
use crate::rules::def::RuleDef;
use crate::rules::error::RuleError;
use crate::sleep_manager::{knobs_of, SleepManager, SleepState};
use crate::text_map::distinct;
use crate::time::{millis, now, ClockError, MAX_CLOCK_NANOS};
use crate::var_manager::{check_var_defs, load_msgs, poll_msgs, VarManager, VarState};
use crate::vars::def::VarDef;
use crate::vars::error::VarError;

verus! {

/// Where the engine stands.
#[derive(Clone, Copy, Debug, PartialEq, Eq, Structural)]
pub enum EngineState {
    /// Waiting for the probes to say whether they are of use, and for the first poll.
    Initializing,
    Running,
    Terminating,
    /// The machine is of a chassis type that the settings do not admit.
    Disabled,
}

/// Why the engine could not start.
#[derive(Debug, Clone, PartialEq, Eq)]
pub enum EngineError {
    Rule(RuleError),
    Var(VarError),
    Clock(ClockError),
}

/// What the engine asks for after a message.
#[derive(Debug, Clone, PartialEq, Eq)]
pub struct EngineOutput {
    /// What to send to the worker, in this order.
    pub worker_msgs: Vec<WorkerMsg>,
    /// An error came up: `Terminate` is to be sent to the engine itself.
    pub self_terminate: bool,
    /// The message is not taken in this state, and was ignored.
    pub ignored: bool,
}

/// `EngineOutput` as mathematics.
pub struct OutputView {
    pub worker_msgs: Seq<WorkerMsgView>,
    pub self_terminate: bool,
    pub ignored: bool,
}

impl View for EngineOutput {
    type V = OutputView;

    open spec fn view(&self) -> OutputView {
        OutputView {
            worker_msgs: msgs_view(self.worker_msgs@),
            self_terminate: self.self_terminate,
            ignored: self.ignored,
        }
    }
}

impl OutputView {
    /// These messages, and nothing else.
    pub open spec fn of(worker_msgs: Seq<WorkerMsgView>) -> OutputView {
        OutputView { worker_msgs, self_terminate: false, ignored: false }
    }

    /// Nothing at all.
    pub open spec fn quiet() -> OutputView {
        OutputView::of(Seq::empty())
    }

    /// A request to suspend is among the messages.
    pub open spec fn asks_suspend(self) -> bool {
        exists|i: int|
            0 <= i < self.worker_msgs.len() && (#[trigger] self.worker_msgs[i]) is Suspend
    }

    /// The messages of `self` after those of `first`.
    pub open spec fn after(self, first: Seq<WorkerMsgView>) -> OutputView {
        OutputView { worker_msgs: first + self.worker_msgs, ..self }
    }
}

/// The message that a decision of the sleep manager is, if it is one.
pub open spec fn decision_msgs(decision: Option<WorkerMsg>) -> Seq<WorkerMsgView> {
    match decision {
        Some(m) => seq![m@],
        None => Seq::empty(),
    }
}

/// The engine as mathematics.
pub struct EngineView {
    pub state: EngineState,
    pub vars: VarState,
    pub rules: RuleState,
    pub sleep: SleepState,
}

impl EngineView {
    /// The managers are well formed.
    pub open spec fn wf(self) -> bool {
        self.vars.wf() && self.rules.wf()
    }

    /// One tick: the category variables are computed, the outcomes of the rules
    /// are stored, the sleep manager learns whether a stayup rule is true, and
    /// decides. `clock` is the clock's reading, or none where the clock failed:
    /// then the sleep manager only records whether a stayup rule is true, and the
    /// engine asks to terminate.
    pub open spec fn tick(self, clock: Option<int>, results: Seq<Option<bool>>) -> (
        EngineView,
        OutputView,
    ) {
        let vars = self.vars.update_category_vars();
        let rules = self.rules.store(results);
        match clock {
            Some(now) => {
                let sleep = self.sleep.update(now, rules.is_stayup_active());
                (
                    EngineView { vars, rules, sleep, ..self },
                    OutputView::of(decision_msgs(sleep.decision(now))),
                )
            },
            None => (
                EngineView {
                    vars,
                    rules,
                    sleep: SleepState { stayup_active: rules.is_stayup_active(), ..self.sleep },
                    ..self
                },
                OutputView { worker_msgs: Seq::empty(), self_terminate: true, ignored: false },
            ),
        }
    }

    /// What the scripts of the rules give at a tick that begins in this state:
    /// each is evaluated over the variables as they are once the category variables
    /// are computed.
    pub open spec fn live_results(self) -> Seq<Option<bool>> {
        evaluated(self.rules.rules, script_constants(self.vars.update_category_vars().vars))
    }

    /// The state in which a tick begins, if `msg` leads to one.
    pub open spec fn tick_state(self, msg: EngineMsg) -> EngineView {
        match msg {
            EngineMsg::ReturnVarPoll(name, value) => (EngineView {
                vars: self.vars.return_var_poll(name@, value),
                ..self
            }).settle().0,
            EngineMsg::PollVarsTick => EngineView { vars: self.vars.poll_vars(), ..self },
            _ => self,
        }
    }

    /// The engine after `msg`, and what it asks for, where the scripts of the rules
    /// are run: `step` with what the scripts give.
    pub open spec fn step_live(self, msg: EngineMsg, clock: Option<int>) -> (
        EngineView,
        OutputView,
    ) {
        self.step(msg, clock, self.tick_state(msg).live_results())
    }

    /// An initializing engine whose variables are initialized starts to run, and
    /// asks for the poll ticker.
    pub open spec fn settle(self) -> (EngineView, OutputView) {
        if self.state == EngineState::Initializing && self.vars.is_initialized() {
            (
                EngineView { state: EngineState::Running, ..self },
                OutputView::of(
                    seq![WorkerMsgView::SpawnPollVarInterval(self.vars.poll_variable_interval)],
                ),
            )
        } else {
            (self, OutputView::quiet())
        }
    }

    /// A running engine with no poll under way ticks.
    pub open spec fn tick_if_due(self, clock: Option<int>, results: Seq<Option<bool>>) -> (
        EngineView,
        OutputView,
    ) {
        if self.state == EngineState::Running && self.vars.waitlist_poll == Set::<
            Seq<char>,
        >::empty() {
            self.tick(clock, results)
        } else {
            (self, OutputView::quiet())
        }
    }

    /// A probe has said whether its variable is of use: the variable manager
    /// takes the answer, and the engine starts to run if nothing is waited for.
    pub open spec fn on_return_var_is_active(self, name: Seq<char>, active: bool) -> (
        EngineView,
        OutputView,
    ) {
        let msgs = self.vars.return_var_is_active_msgs(name, active);
        let taken = EngineView { vars: self.vars.return_var_is_active(name, active), ..self };
        (taken.settle().0, taken.settle().1.after(msgs))
    }

    /// A poll has returned: the variable manager takes the answer, the engine
    /// starts to run if nothing is waited for, and ticks if it runs and no poll is
    /// under way.
    pub open spec fn on_return_var_poll(
        self,
        name: Seq<char>,
        value: Option<crate::vars::value::VarValue>,
        clock: Option<int>,
        results: Seq<Option<bool>>,
    ) -> (EngineView, OutputView) {
        let taken = EngineView { vars: self.vars.return_var_poll(name, value), ..self };
        let settled = taken.settle();
        let ticked = settled.0.tick_if_due(clock, results);
        (ticked.0, ticked.1.after(settled.1.worker_msgs))
    }

    /// The poll interval has passed: a poll begins, and where there is nothing to
    /// poll the engine ticks at once.
    pub open spec fn on_poll_vars_tick(self, clock: Option<int>, results: Seq<Option<bool>>) -> (
        EngineView,
        OutputView,
    ) {
        let polling = EngineView { vars: self.vars.poll_vars(), ..self };
        let ticked = polling.tick_if_due(clock, results);
        (ticked.0, ticked.1.after(poll_msgs(self.vars.var_defs)))
    }

    /// The system has woken: the minimum awake time starts. Where the clock
    /// failed only the end of the suspend is recorded, and the engine asks to
    /// terminate.
    pub open spec fn on_resuming(self, clock: Option<int>) -> (EngineView, OutputView) {
        match clock {
            Some(now) => (
                EngineView { sleep: self.sleep.resuming(now), ..self },
                OutputView::quiet(),
            ),
            None => (
                EngineView {
                    sleep: SleepState { suspend_in_progress: false, ..self.sleep },
                    ..self
                },
                OutputView { worker_msgs: Seq::empty(), self_terminate: true, ignored: false },
            ),
        }
    }

    /// The engine terminates, and tells the worker to.
    pub open spec fn on_terminate(self) -> (EngineView, OutputView) {
        (
            EngineView { state: EngineState::Terminating, ..self },
            OutputView::of(seq![WorkerMsgView::Terminate]),
        )
    }

    /// The message is not taken: nothing changes.
    pub open spec fn ignore(self) -> (EngineView, OutputView) {
        (self, OutputView { worker_msgs: Seq::empty(), self_terminate: false, ignored: true })
    }

    /// The engine after `msg`, and what it asks for. `clock` is the clock's
    /// reading, or none where the clock failed; `results` are the outcomes of
    /// evaluating the rules. Both are read only where the message leads to a tick
    /// or is the system waking.
    pub open spec fn step(self, msg: EngineMsg, clock: Option<int>, results: Seq<Option<bool>>) -> (
        EngineView,
        OutputView,
    ) {
        match self.state {
            EngineState::Initializing => match msg {
                EngineMsg::ReturnVarIsActive(name, active) => self.on_return_var_is_active(
                    name@,
                    active,
                ),
                EngineMsg::ReturnVarPoll(name, value) => self.on_return_var_poll(
                    name@,
                    value,
                    clock,
                    results,
                ),
                EngineMsg::Terminate => self.on_terminate(),
                _ => self.ignore(),
            },
            EngineState::Running => match msg {
                EngineMsg::PollVarsTick => self.on_poll_vars_tick(clock, results),
                EngineMsg::ReturnVarPoll(name, value) => self.on_return_var_poll(
                    name@,
                    value,
                    clock,
                    results,
                ),
                EngineMsg::SystemIsSuspending => (
                    EngineView { sleep: self.sleep.suspending(), ..self },
                    OutputView::quiet(),
                ),
                EngineMsg::SystemIsResuming => self.on_resuming(clock),
                EngineMsg::Terminate => self.on_terminate(),
                _ => self.ignore(),
            },
            EngineState::Terminating => self.ignore(),
            EngineState::Disabled => match msg {
                EngineMsg::Terminate => self.on_terminate(),
                _ => self.ignore(),
            },
        }
    }

    /// `step_live` with this reading of the clock leads to `after` and `out`.
    pub open spec fn lives_to(
        self,
        msg: EngineMsg,
        clock: Option<int>,
        after: EngineView,
        out: OutputView,
    ) -> bool {
        &&& clock matches Some(t) ==> 0 <= t <= MAX_CLOCK_NANOS
        &&& self.step_live(msg, clock) == (after, out)
    }

    /// `step` with these readings leads to `after` and `out`.
    pub open spec fn steps_to(
        self,
        msg: EngineMsg,
        clock: Option<int>,
        results: Seq<Option<bool>>,
        after: EngineView,
        out: OutputView,
    ) -> bool {
        &&& results.len() == self.rules.rules.len()
        &&& clock matches Some(t) ==> 0 <= t <= MAX_CLOCK_NANOS
        &&& self.step(msg, clock, results) == (after, out)
    }

    /// The engine after the managers took their definitions at `now`.
    pub open spec fn init(self, rules: Seq<crate::rules::def::RuleDefView>, defs: Seq<
        crate::vars::def::VarDefView,
    >, now: int) -> (EngineView, OutputView) {
        let started = EngineView {
            state: EngineState::Initializing,
            rules: self.rules.init(rules),
            sleep: self.sleep.init(now),
            vars: self.vars.init(defs),
        };
        (
            started.settle().0,
            started.settle().1.after(seq![WorkerMsgView::WatchPrepareForSleep] + load_msgs(defs)),
        )
    }
}

/// The engine.
pub struct EngineCore {
    rule_manager: RuleManager,
    sleep_manager: SleepManager,
    state: EngineState,
    var_manager: VarManager,
}

impl View for EngineCore {
    type V = EngineView;

    closed spec fn view(&self) -> EngineView {
        EngineView {
            state: self.state,
            vars: self.var_manager@,
            rules: self.rule_manager@,
            sleep: self.sleep_manager@,
        }
    }
}

/// The clock's reading: the given one, or that of the system's clock.
fn read_clock(fixed: Option<u128>) -> (r: Result<u128, ClockError>)
    requires
        fixed matches Some(t) ==> t <= MAX_CLOCK_NANOS,
    ensures
        r matches Ok(t) ==> t <= MAX_CLOCK_NANOS,
        fixed matches Some(t) ==> r == Ok::<u128, ClockError>(t),
{
    match fixed {
        Some(t) => Ok(t),
        None => now(),
    }
}

/// An output with these messages before its own.
fn prepend(first: Vec<WorkerMsg>, out: EngineOutput) -> (r: EngineOutput)
    ensures
        r@ == out@.after(msgs_view(first@)),
{
    let mut msgs = first;
    let mut rest = out.worker_msgs;
    let ghost a = msgs@;
    let ghost b = rest@;
    msgs.append(&mut rest);
    assert(msgs_view(a + b) =~= msgs_view(a) + msgs_view(b));
    EngineOutput { worker_msgs: msgs, self_terminate: out.self_terminate, ignored: out.ignored }
}

/// An output with nothing in it.
fn quiet() -> (r: EngineOutput)
    ensures
        r@ == OutputView::quiet(),
{
    let r = EngineOutput { worker_msgs: Vec::new(), self_terminate: false, ignored: false };
    assert(msgs_view(r.worker_msgs@) =~= Seq::<WorkerMsgView>::empty());
    r
}

/// An output with these messages.
fn output_of(worker_msgs: Vec<WorkerMsg>) -> (r: EngineOutput)
    ensures
        r@ == OutputView::of(msgs_view(worker_msgs@)),
{
    EngineOutput { worker_msgs, self_terminate: false, ignored: false }
}

impl EngineCore {
    /// The managers are well formed.
    pub closed spec fn wf(&self) -> bool {
        self.var_manager.wf() && self.rule_manager.wf()
    }

    /// A well-formed engine is well formed as mathematics.
    pub proof fn lemma_view_wf(&self)
        requires
            self.wf(),
        ensures
            self@.wf(),
    {
        self.var_manager.lemma_view_wf();
        self.rule_manager.lemma_view_wf();
    }

    /// An engine that has not started.
    pub fn new(cfg: &Config) -> (e: EngineCore)
        ensures
            e.wf(),
            e@ == (EngineView {
                state: EngineState::Initializing,
                vars: VarState::fresh(cfg.poll_variable_interval),
                rules: RuleState::fresh(),
                sleep: SleepState::fresh(knobs_of(*cfg)),
            }),
    {
        EngineCore {
            rule_manager: RuleManager::new(cfg),
            sleep_manager: SleepManager::new(cfg),
            state: EngineState::Initializing,
            var_manager: VarManager::new(cfg),
        }
    }

    /// Where the engine stands.
    pub fn state(&self) -> (s: EngineState)
        ensures
            s == self@.state,
    {
        self.state
    }

    /// The variable manager.
    pub fn var_manager(&self) -> (m: &VarManager)
        ensures
            m@ == self@.vars,
            self.wf() ==> m.wf(),
    {
        &self.var_manager
    }

    /// The rule manager.
    pub fn rule_manager(&self) -> (m: &RuleManager)
        ensures
            m@ == self@.rules,
            self.wf() ==> m.wf(),
    {
        &self.rule_manager
    }

    /// The sleep manager.
    pub fn sleep_manager(&self) -> (m: &SleepManager)
        ensures
            m@ == self@.sleep,
    {
        &self.sleep_manager
    }

    /// The milliseconds from `now` until the system may be suspended, and whether
    /// a stayup rule is true.
    pub fn get_status_at(&self, now: u128) -> (r: (u64, bool))
        ensures
            r.0 == crate::time::whole_millis_until(
                now as int,
                self@.sleep.nearest_possible_suspend,
            ),
            r.1 == self@.sleep.stayup_active,
    {
        self.sleep_manager.status_at(now)
    }

    /// What starting the engine at `now` gives: a disabled engine where the
    /// chassis is not admitted, else the engine with its definitions.
    pub open spec fn started(
        before: EngineView,
        chassis_allowed: bool,
        rules: Seq<crate::rules::def::RuleDefView>,
        defs: Seq<crate::vars::def::VarDefView>,
        now: int,
    ) -> (EngineView, OutputView) {
        if chassis_allowed {
            before.init(rules, defs, now)
        } else {
            (EngineView { state: EngineState::Disabled, ..before }, OutputView::quiet())
        }
    }

    /// The definitions can be taken: no two variables have one name, every rule
    /// script compiles, and no two rules have one name.
    pub open spec fn startable(
        rules: Seq<crate::rules::def::RuleDefView>,
        defs: Seq<crate::vars::def::VarDefView>,
    ) -> bool {
        &&& distinct(def_names(defs))
        &&& all_compile(rules)
        &&& distinct(rule_names(rules))
    }

    /// Starts the engine at `now`. On a chassis that is not admitted the engine
    /// is disabled and takes no definitions. Else it starts exactly when the
    /// definitions can be taken: variable definitions of which two have one name
    /// are refused, then rule definitions that the rule manager refuses; where it
    /// refuses, nothing changes. Else the managers take their definitions, and the
    /// worker is asked to watch for suspends, to make the probes and to ask them
    /// whether they are of use. Without polled variables the engine runs at once.
    pub fn init_at(
        &mut self,
        chassis_allowed: bool,
        rule_defs: Vec<RuleDef>,
        var_defs: Vec<VarDef>,
        now: u128,
    ) -> (r: Result<EngineOutput, EngineError>)
        requires
            old(self).wf(),
            now <= MAX_CLOCK_NANOS,
        ensures
            final(self).wf(),
            r is Err ==> final(self)@ == old(self)@,
            r matches Ok(out) ==> (final(self)@, out@) == Self::started(
                old(self)@,
                chassis_allowed,
                rule_views(rule_defs@),
                def_views(var_defs@),
                now as int,
            ),
            !chassis_allowed ==> r is Ok,
            chassis_allowed ==> (r is Ok <==> Self::startable(
                rule_views(rule_defs@),
                def_views(var_defs@),
            )),
            chassis_allowed && r is Ok ==> final(self)@.state == if crate::var_manager::poll_names(
                def_views(var_defs@),
            ).len() == 0 {
                EngineState::Running
            } else {
                EngineState::Initializing
            },
            chassis_allowed && crate::var_manager::poll_names(def_views(var_defs@)).len() > 0 ==> (
            r matches Ok(out) ==> out@ == OutputView::of(
                seq![WorkerMsgView::WatchPrepareForSleep] + load_msgs(def_views(var_defs@)),
            )),
            chassis_allowed && !distinct(def_names(def_views(var_defs@))) ==> r matches Err(
                EngineError::Var(_),
            ),
            chassis_allowed && distinct(def_names(def_views(var_defs@))) ==> (r is Ok
                || r matches Err(EngineError::Rule(_))),
    {
        if !chassis_allowed {
            self.state = EngineState::Disabled;
            return Ok(quiet());
        }
        proof {
            lemma_start(self@, rule_views(rule_defs@), def_views(var_defs@), now as int);
        }
        match check_var_defs(&var_defs) {
            Err(e) => {
                return Err(EngineError::Var(e));
            },
            Ok(()) => {},
        }
        match self.rule_manager.init(rule_defs) {
            Err(e) => {
                return Err(EngineError::Rule(e));
            },
            Ok(()) => {},
        }
        self.sleep_manager.init_at(now);
        let ghost defs = def_views(var_defs@);
        let loaded = match self.var_manager.init(var_defs) {
            Ok(msgs) => msgs,
            Err(e) => {
                return Err(EngineError::Var(e));
            },
        };
        self.state = EngineState::Initializing;
        let settled = self.settle();
        let mut first: Vec<WorkerMsg> = Vec::new();
        first.push(WorkerMsg::WatchPrepareForSleep);
        let mut loaded = loaded;
        let ghost a = first@;
        let ghost b = loaded@;
        first.append(&mut loaded);
        proof {
            assert(msgs_view(a + b) =~= seq![WorkerMsgView::WatchPrepareForSleep] + load_msgs(
                defs,
            ));
        }
        Ok(prepend(first, settled))
    }

    /// `init_at` with the clock's reading. The clock is not read for a chassis
    /// that is not admitted. Where the clock fails, nothing changes. On an admitted
    /// chassis definitions that cannot be taken are always refused, and definitions
    /// that can be taken fail on the clock alone.
    pub fn init(
        &mut self,
        chassis_allowed: bool,
        rule_defs: Vec<RuleDef>,
        var_defs: Vec<VarDef>,
    ) -> (r: Result<EngineOutput, EngineError>)
        requires
            old(self).wf(),
        ensures
            final(self).wf(),
            r is Err ==> final(self)@ == old(self)@,
            r matches Ok(out) ==> exists|t: int|
                0 <= t <= MAX_CLOCK_NANOS && (final(self)@, out@) == #[trigger] Self::started(
                    old(self)@,
                    chassis_allowed,
                    rule_views(rule_defs@),
                    def_views(var_defs@),
                    t,
                ),
            !chassis_allowed ==> r is Ok,
            chassis_allowed && !Self::startable(rule_views(rule_defs@), def_views(var_defs@))
                ==> r is Err,
            chassis_allowed && Self::startable(rule_views(rule_defs@), def_views(var_defs@))
                ==> (r is Ok || r matches Err(EngineError::Clock(_))),
            chassis_allowed && r is Ok ==> final(self)@.state == if crate::var_manager::poll_names(
                def_views(var_defs@),
            ).len() == 0 {
                EngineState::Running
            } else {
                EngineState::Initializing
            },
            chassis_allowed && crate::var_manager::poll_names(def_views(var_defs@)).len() > 0 ==> (
            r matches Ok(out) ==> out@ == OutputView::of(
                seq![WorkerMsgView::WatchPrepareForSleep] + load_msgs(def_views(var_defs@)),
            )),
    {
        if !chassis_allowed {
            let r = self.init_at(false, rule_defs, var_defs, 0);
            return r;
        }
        match now() {
            Ok(t) => self.init_at(true, rule_defs, var_defs, t),
            Err(e) => Err(EngineError::Clock(e)),
        }
    }

    /// The milliseconds from the clock's reading until the system may be
    /// suspended, and whether a stayup rule is true. A deadline of zero, as an
    /// engine has that never started its managers, has passed whatever the clock
    /// reads: the clock is not read for it.
    pub fn get_status(&self) -> (r: Result<(u64, bool), ClockError>)
        ensures
            self@.sleep.nearest_possible_suspend == 0 ==> r == Ok::<(u64, bool), ClockError>(
                (0u64, self@.sleep.stayup_active),
            ),
            r matches Ok(status) ==> status.1 == self@.sleep.stayup_active && exists|t: int|
                0 <= t <= MAX_CLOCK_NANOS && status.0 == #[trigger] crate::time::whole_millis_until(
                    t,
                    self@.sleep.nearest_possible_suspend,
                ),
    {
        if self.sleep_manager.nearest_possible_suspend() == 0 {
            assert(crate::time::whole_millis_until(0, self@.sleep.nearest_possible_suspend) == 0);
            return Ok((0, self.sleep_manager.is_stayup_active()));
        }
        match now() {
            Ok(t) => Ok(self.sleep_manager.status_at(t)),
            Err(e) => Err(e),
        }
    }

    fn settle(&mut self) -> (out: EngineOutput)
        requires
            old(self).wf(),
        ensures
            final(self).wf(),
            (final(self)@, out@) == old(self)@.settle(),
    {
        if self.state == EngineState::Initializing && self.var_manager.is_initialized() {
            self.state = EngineState::Running;
            let mut msgs: Vec<WorkerMsg> = Vec::new();
            msgs.push(self.var_manager.spawn_poll_var_interval());
            assert(msgs_view(msgs@) =~= seq![
                WorkerMsgView::SpawnPollVarInterval(self@.vars.poll_variable_interval),
            ]);
            output_of(msgs)
        } else {
            quiet()
        }
    }

    fn tick(&mut self, fixed_clock: Option<u128>, fixed_results: Option<&Vec<Option<bool>>>) -> (r:
        (EngineOutput, Ghost<Option<int>>, Ghost<Seq<Option<bool>>>))
        requires
            old(self).wf(),
            fixed_clock matches Some(t) ==> t <= MAX_CLOCK_NANOS,
            fixed_results matches Some(given) ==> given@.len() == old(self)@.rules.rules.len(),
        ensures
            final(self).wf(),
            (final(self)@, r.0@) == old(self)@.tick(r.1@, r.2@),
            r.2@.len() == old(self)@.rules.rules.len(),
            r.1@ matches Some(t) ==> 0 <= t <= MAX_CLOCK_NANOS,
            fixed_clock matches Some(t) ==> r.1@ == Some(t as int),
            fixed_results matches Some(given) ==> r.2@ == given@,
            fixed_results is None ==> r.2@ == old(self)@.live_results(),
    {
        self.var_manager.update_category_vars();
        self.rule_manager.reset_script_scope(self.var_manager.vars());
        let ghost results;
        match fixed_results {
            Some(given) => {
                self.rule_manager.store_stayup_values(given);
                proof {
                    results = given@;
                }
            },
            None => {
                let raw = self.rule_manager.compute_stayup_values();
                proof {
                    results = old(self)@.live_results();
                }
            },
        }
        let active = self.rule_manager.is_stayup_active();
        let clock = read_clock(fixed_clock);
        match clock {
            Ok(now) => {
                self.sleep_manager.update_at(now, active);
                let decision = self.sleep_manager.suspend_if_allowed_at(now);
                let mut msgs: Vec<WorkerMsg> = Vec::new();
                match decision {
                    Some(m) => {
                        msgs.push(m);
                    },
                    None => {},
                }
                assert(msgs_view(msgs@) =~= decision_msgs(decision));
                (output_of(msgs), Ghost(Some(now as int)), Ghost(results))
            },
            Err(_) => {
                self.sleep_manager.record_stayup(active);
                let out = EngineOutput {
                    worker_msgs: Vec::new(),
                    self_terminate: true,
                    ignored: false,
                };
                assert(msgs_view(out.worker_msgs@) =~= Seq::<WorkerMsgView>::empty());
                (out, Ghost(None), Ghost(results))
            },
        }
    }

    fn tick_if_due(
        &mut self,
        fixed_clock: Option<u128>,
        fixed_results: Option<&Vec<Option<bool>>>,
    ) -> (r: (EngineOutput, Ghost<Option<int>>, Ghost<Seq<Option<bool>>>))
        requires
            old(self).wf(),
            fixed_clock matches Some(t) ==> t <= MAX_CLOCK_NANOS,
            fixed_results matches Some(given) ==> given@.len() == old(self)@.rules.rules.len(),
        ensures
            final(self).wf(),
            (final(self)@, r.0@) == old(self)@.tick_if_due(r.1@, r.2@),
            r.2@.len() == old(self)@.rules.rules.len(),
            r.1@ matches Some(t) ==> 0 <= t <= MAX_CLOCK_NANOS,
            fixed_clock matches Some(t) ==> r.1@ == Some(t as int),
            fixed_results matches Some(given) ==> r.2@ == given@,
            fixed_results is None ==> r.2@ == old(self)@.live_results(),
            final(self)@.rules.rules == old(self)@.rules.rules,
    {
        if self.state == EngineState::Running && self.var_manager.waitlist_poll_is_empty() {
            self.tick(fixed_clock, fixed_results)
        } else {
            let ghost clock = match fixed_clock {
                Some(t) => Some(t as int),
                None => None,
            };
            let ghost results = match fixed_results {
                Some(given) => given@,
                None => self@.live_results(),
            };
            (quiet(), Ghost(clock), Ghost(results))
        }
    }

    fn step(
        &mut self,
        msg: EngineMsg,
        fixed_clock: Option<u128>,
        fixed_results: Option<&Vec<Option<bool>>>,
    ) -> (r: (EngineOutput, Ghost<Option<int>>, Ghost<Seq<Option<bool>>>))
        requires
            old(self).wf(),
            fixed_clock matches Some(t) ==> t <= MAX_CLOCK_NANOS,
            fixed_results matches Some(given) ==> given@.len() == old(self)@.rules.rules.len(),
        ensures
            final(self).wf(),
            old(self)@.steps_to(msg, r.1@, r.2@, final(self)@, r.0@),
            fixed_clock matches Some(t) ==> r.1@ == Some(t as int),
            fixed_results matches Some(given) ==> r.2@ == given@,
            fixed_results is None ==> r.2@ == old(self)@.tick_state(msg).live_results(),
            final(self)@.rules.rules == old(self)@.rules.rules,
    {
        let ghost idle_clock = match fixed_clock {
            Some(t) => Some(t as int),
            None => None,
        };
        let ghost idle_results = match fixed_results {
            Some(given) => given@,
            None => self@.tick_state(msg).live_results(),
        };
        let ignored = EngineOutput {
            worker_msgs: Vec::new(),
            self_terminate: false,
            ignored: true,
        };
        assert(msgs_view(ignored.worker_msgs@) =~= Seq::<WorkerMsgView>::empty());
        match (self.state, msg) {
            (EngineState::Initializing, EngineMsg::ReturnVarIsActive(name, active)) => {
                let msgs = self.var_manager.handle_return_var_is_active(&name, active);
                let settled = self.settle();
                (prepend(msgs, settled), Ghost(idle_clock), Ghost(idle_results))
            },
            (EngineState::Initializing, EngineMsg::ReturnVarPoll(name, value))
            | (EngineState::Running, EngineMsg::ReturnVarPoll(name, value)) => {
                self.var_manager.handle_return_var_poll(name, value);
                let settled = self.settle();
                let (ticked, clock, results) = self.tick_if_due(fixed_clock, fixed_results);
                (prepend(settled.worker_msgs, ticked), clock, results)
            },
            (EngineState::Running, EngineMsg::PollVarsTick) => {
                let msgs = self.var_manager.poll_vars();
                let (ticked, clock, results) = self.tick_if_due(fixed_clock, fixed_results);
                (prepend(msgs, ticked), clock, results)
            },
            (EngineState::Running, EngineMsg::SystemIsSuspending) => {
                self.sleep_manager.handle_system_is_suspending();
                (quiet(), Ghost(idle_clock), Ghost(idle_results))
            },
            (EngineState::Running, EngineMsg::SystemIsResuming) => {
                match fixed_clock {
                    Some(t) => {
                        self.sleep_manager.handle_system_is_resuming_at(t);
                        (quiet(), Ghost(Some(t as int)), Ghost(idle_results))
                    },
                    None => {
                        let ghost before = self.sleep_manager@;
                        match self.sleep_manager.handle_system_is_resuming() {
                            Ok(()) => {
                                let ghost t = choose|t: int|
                                    0 <= t <= MAX_CLOCK_NANOS && self.sleep_manager@
                                        == #[trigger] before.resuming(t);
                                (quiet(), Ghost(Some(t)), Ghost(idle_results))
                            },
                            Err(_) => {
                                let out = EngineOutput {
                                    worker_msgs: Vec::new(),
                                    self_terminate: true,
                                    ignored: false,
                                };
                                assert(msgs_view(out.worker_msgs@) =~= Seq::<
                                    WorkerMsgView,
                                >::empty());
                                (out, Ghost(None), Ghost(idle_results))
                            },
                        }
                    },
                }
            },
            (EngineState::Initializing, EngineMsg::Terminate)
            | (EngineState::Running, EngineMsg::Terminate)
            | (EngineState::Disabled, EngineMsg::Terminate) => {
                self.state = EngineState::Terminating;
                let mut msgs: Vec<WorkerMsg> = Vec::new();
                msgs.push(WorkerMsg::Terminate);
                assert(msgs_view(msgs@) =~= seq![WorkerMsgView::Terminate]);
                (output_of(msgs), Ghost(idle_clock), Ghost(idle_results))
            },
            _ => (ignored, Ghost(idle_clock), Ghost(idle_results)),
        }
    }

    /// Takes `msg` at `now`, with `results` as the outcomes of evaluating the
    /// rules: the scripts are not run. The engine moves as `EngineView::step` says.
    pub fn handle_msg_with(
        &mut self,
        msg: EngineMsg,
        now: u128,
        results: &Vec<Option<bool>>,
    ) -> (out: EngineOutput)
        requires
            old(self).wf(),
            now <= MAX_CLOCK_NANOS,
            results@.len() == old(self)@.rules.rules.len(),
        ensures
            final(self).wf(),
            (final(self)@, out@) == old(self)@.step(msg, Some(now as int), results@),
            out@.asks_suspend() ==> !some_true(results@),
            final(self)@.sleep.nearest_possible_suspend >= old(
                self,
            )@.sleep.nearest_possible_suspend,
    {
        let ghost before = self@;
        proof {
            self.lemma_view_wf();
        }
        let (out, _, _) = self.step(msg, Some(now), Some(results));
        proof {
            lemma_suspend_only_when_no_rule_true(before, msg, Some(now as int), results@);
        }
        out
    }

    /// Takes `msg` at `now`. Where the message leads to a tick the scripts of the
    /// rules are run over the variables, and the engine moves as
    /// `EngineView::step_live` says.
    pub fn handle_msg_at(&mut self, msg: EngineMsg, now: u128) -> (out: EngineOutput)
        requires
            old(self).wf(),
            now <= MAX_CLOCK_NANOS,
        ensures
            final(self).wf(),
            (final(self)@, out@) == old(self)@.step_live(msg, Some(now as int)),
            out@.asks_suspend() ==> !final(self)@.rules.is_stayup_active(),
            final(self)@.sleep.nearest_possible_suspend >= old(
                self,
            )@.sleep.nearest_possible_suspend,
    {
        let ghost before = self@;
        proof {
            self.lemma_view_wf();
        }
        let (out, _, results) = self.step(msg, Some(now), None);
        proof {
            lemma_suspend_only_when_no_rule_true(before, msg, Some(now as int), results@);
        }
        out
    }

    /// Takes `msg`. Where the message leads to a tick, or is the system waking,
    /// the clock is read; where it leads to a tick the scripts of the rules are
    /// run over the variables. The engine moves as `EngineView::step_live` says for
    /// what the clock gave. No request to suspend is made while a rule is true.
    pub fn handle_msg(&mut self, msg: EngineMsg) -> (out: EngineOutput)
        requires
            old(self).wf(),
        ensures
            final(self).wf(),
            exists|clock: Option<int>| #[trigger]
                old(self)@.lives_to(msg, clock, final(self)@, out@),
            out@.asks_suspend() ==> !final(self)@.rules.is_stayup_active(),
            final(self)@.sleep.nearest_possible_suspend >= old(
                self,
            )@.sleep.nearest_possible_suspend,
    {
        let ghost before = self@;
        proof {
            self.lemma_view_wf();
        }
        let (out, clock, results) = self.step(msg, None, None);
        proof {
            lemma_suspend_only_when_no_rule_true(before, msg, clock@, results@);
            assert(before.lives_to(msg, clock@, self@, out@));
        }
        out
    }
}

/// No tick asks for a suspend when a rule evaluated to true, and after a tick
/// on which a rule was true the deadline is no earlier than the clock's reading
/// plus the cleared-awake time plus the poll interval.
pub proof fn lemma_tick_holds_up(s: EngineView, now: int, results: Seq<Option<bool>>)
    requires
        s.wf(),
        results.len() == s.rules.rules.len(),
    ensures
        s.tick(Some(now), results).0.rules.is_stayup_active() <==> some_true(results),
        s.tick(Some(now), results).0.sleep.stayup_active <==> some_true(results),
        some_true(results) ==> !s.tick(Some(now), results).1.asks_suspend(),
        some_true(results) ==> s.tick(Some(now), results).0.sleep.nearest_possible_suspend >= now
            + millis(
            s.sleep.knobs.stayup_cleared_awake_time as int
                + s.sleep.knobs.poll_variable_interval as int,
        ),
        s.tick(Some(now), results).0.sleep.nearest_possible_suspend
            >= s.sleep.nearest_possible_suspend,
{
    lemma_active_iff_some_true(s.rules, results);
}

/// Messages put before an output add no request to suspend, when none of them
/// is one.
pub proof fn lemma_after(out: OutputView, first: Seq<WorkerMsgView>)
    requires
        forall|j: int| 0 <= j < first.len() ==> !((#[trigger] first[j]) is Suspend),
    ensures
        out.after(first).asks_suspend() == out.asks_suspend(),
{
    let joined = out.after(first);
    if joined.asks_suspend() {
        let i = choose|i: int|
            0 <= i < joined.worker_msgs.len() && (#[trigger] joined.worker_msgs[i]) is Suspend;
        if i < first.len() {
            assert(joined.worker_msgs[i] == first[i]);
        } else {
            assert(joined.worker_msgs[i] == out.worker_msgs[i - first.len()]);
        }
    }
    if out.asks_suspend() {
        let i = choose|i: int|
            0 <= i < out.worker_msgs.len() && (#[trigger] out.worker_msgs[i]) is Suspend;
        assert(joined.worker_msgs[i + first.len()] == out.worker_msgs[i]);
    }
}

/// The calls of a poll hold no request to suspend.
pub proof fn lemma_poll_msgs(defs: Seq<crate::vars::def::VarDefView>)
    ensures
        forall|j: int|
            0 <= j < poll_msgs(defs).len() ==> !((#[trigger] poll_msgs(defs)[j]) is Suspend),
{
}

/// What a tick leaves: well-formed managers, the same state and rules, a
/// deadline that did not move back, and a request to suspend only when no rule
/// evaluated to true.
pub proof fn lemma_tick(s: EngineView, clock: Option<int>, results: Seq<Option<bool>>)
    requires
        s.wf(),
        results.len() == s.rules.rules.len(),
    ensures
        s.tick(clock, results).0.wf(),
        s.tick(clock, results).0.state == s.state,
        s.tick(clock, results).0.rules.rules == s.rules.rules,
        s.tick(clock, results).0.sleep.nearest_possible_suspend >= s.sleep.nearest_possible_suspend,
        s.tick(clock, results).0.sleep.knobs == s.sleep.knobs,
        s.tick(clock, results).0.rules.is_stayup_active() <==> some_true(results),
        s.tick(clock, results).1.asks_suspend() ==> !some_true(results) && !s.tick(
            clock,
            results,
        ).0.sleep.stayup_active,
{
    lemma_active_iff_some_true(s.rules, results);
    let out = s.tick(clock, results).1;
    if out.asks_suspend() {
        let i = choose|i: int|
            0 <= i < out.worker_msgs.len() && (#[trigger] out.worker_msgs[i]) is Suspend;
        assert(clock is Some);
    }
}

/// Whatever the message, the clock and the outcomes of the rules: the managers
/// stay well formed, the rules stay, the deadline does not move back, and a
/// request to suspend is made only on a tick on which no rule evaluated to true,
/// and leaves no stayup rule active.
pub proof fn lemma_suspend_only_when_no_rule_true(
    s: EngineView,
    msg: EngineMsg,
    clock: Option<int>,
    results: Seq<Option<bool>>,
)
    requires
        s.wf(),
        results.len() == s.rules.rules.len(),
    ensures
        s.step(msg, clock, results).1.asks_suspend() ==> !some_true(results) && !s.step(
            msg,
            clock,
            results,
        ).0.rules.is_stayup_active() && !s.step(msg, clock, results).0.sleep.stayup_active,
        s.step(msg, clock, results).0.wf(),
        s.step(msg, clock, results).0.rules.rules == s.rules.rules,
        s.step(msg, clock, results).0.sleep.nearest_possible_suspend
            >= s.sleep.nearest_possible_suspend,
        s.step(msg, clock, results).0.sleep.knobs == s.sleep.knobs,
{
    let spawn = seq![WorkerMsgView::SpawnPollVarInterval(s.vars.poll_variable_interval)];
    match (s.state, msg) {
        (EngineState::Initializing, EngineMsg::ReturnVarIsActive(name, active)) => {
            let taken = EngineView { vars: s.vars.return_var_is_active(name@, active), ..s };
            crate::var_manager::lemma_without(s.vars.var_defs, name@);
            lemma_poll_msgs(taken.vars.var_defs);
            lemma_after(taken.settle().1, s.vars.return_var_is_active_msgs(name@, active));
            let settled = taken.settle().1;
            if settled.asks_suspend() {
                let i = choose|i: int|
                    0 <= i < settled.worker_msgs.len() && (
                    #[trigger] settled.worker_msgs[i]) is Suspend;
                assert(settled.worker_msgs[i] == spawn[i]);
            }
        },
        (EngineState::Initializing, EngineMsg::ReturnVarPoll(name, value))
        | (EngineState::Running, EngineMsg::ReturnVarPoll(name, value)) => {
            let taken = EngineView { vars: s.vars.return_var_poll(name@, value), ..s };
            let settled = taken.settle();
            if settled.0.state == EngineState::Running && settled.0.vars.waitlist_poll == Set::<
                Seq<char>,
            >::empty() {
                lemma_tick(settled.0, clock, results);
            }
            let ticked = settled.0.tick_if_due(clock, results);
            lemma_after(ticked.1, settled.1.worker_msgs);
        },
        (EngineState::Running, EngineMsg::PollVarsTick) => {
            let polling = EngineView { vars: s.vars.poll_vars(), ..s };
            if polling.vars.waitlist_poll == Set::<Seq<char>>::empty() {
                lemma_tick(polling, clock, results);
            }
            lemma_poll_msgs(s.vars.var_defs);
            lemma_after(polling.tick_if_due(clock, results).1, poll_msgs(s.vars.var_defs));
        },
        (EngineState::Initializing, EngineMsg::Terminate)
        | (EngineState::Running, EngineMsg::Terminate)
        | (EngineState::Disabled, EngineMsg::Terminate) => {
            let out = s.on_terminate().1;
            if out.asks_suspend() {
                let i = choose|i: int|
                    0 <= i < out.worker_msgs.len() && (#[trigger] out.worker_msgs[i]) is Suspend;
                assert(out.worker_msgs[i] == WorkerMsgView::Terminate);
            }
        },
        _ => {},
    }
}

impl EngineView {
    /// What is waited for is in order: only polled variables are waited for, no
    /// poll is under way while a probe has yet to say whether it is of use, and a
    /// running engine waits for no such answer.
    pub open spec fn waits_well(self) -> bool {
        let polled = crate::var_manager::poll_names(self.vars.var_defs).to_set();
        &&& self.vars.waitlist_active.subset_of(polled)
        &&& self.vars.waitlist_poll.subset_of(polled)
        &&& (self.vars.waitlist_active != Set::<Seq<char>>::empty() ==> self.vars.waitlist_poll
            == Set::<Seq<char>>::empty())
        &&& (self.state == EngineState::Running ==> self.vars.waitlist_active == Set::<
            Seq<char>,
        >::empty())
    }
}

/// An engine that was just started waits well.
pub proof fn lemma_start_waits_well(
    s: EngineView,
    rules: Seq<crate::rules::def::RuleDefView>,
    defs: Seq<crate::vars::def::VarDefView>,
    now: int,
)
    ensures
        s.init(rules, defs, now).0.waits_well(),
{
}

/// Whatever the message, the clock and the outcomes of the rules, an engine
/// that waits well goes on to wait well: it runs only once every probe has
/// answered, and a variable leaves the polled ones only when its probe said that
/// it is of no use.
pub proof fn lemma_step_waits_well(
    s: EngineView,
    msg: EngineMsg,
    clock: Option<int>,
    results: Seq<Option<bool>>,
)
    requires
        s.wf(),
        s.waits_well(),
    ensures
        s.step(msg, clock, results).0.waits_well(),
{
    let none = Set::<Seq<char>>::empty();
    match (s.state, msg) {
        (EngineState::Initializing, EngineMsg::ReturnVarIsActive(name, active)) => {
            crate::var_manager::lemma_poll_names_without(s.vars.var_defs, name@);
            let taken = EngineView { vars: s.vars.return_var_is_active(name@, active), ..s };
            if s.vars.waitlist_active.contains(name@) {
                assert(s.vars.waitlist_active != none);
                assert(s.vars.waitlist_poll == none);
            }
            assert(taken.waits_well());
            lemma_settle_waits_well(taken);
        },
        (EngineState::Initializing, EngineMsg::ReturnVarPoll(name, value))
        | (EngineState::Running, EngineMsg::ReturnVarPoll(name, value)) => {
            let taken = EngineView { vars: s.vars.return_var_poll(name@, value), ..s };
            if s.vars.waitlist_poll == none {
                assert(s.vars.waitlist_poll.remove(name@) =~= none);
            }
            assert(taken.waits_well());
            lemma_settle_waits_well(taken);
            lemma_tick_waits_well(taken.settle().0, clock, results);
        },
        (EngineState::Running, EngineMsg::PollVarsTick) => {
            let polling = EngineView { vars: s.vars.poll_vars(), ..s };
            assert(polling.waits_well());
            lemma_tick_waits_well(polling, clock, results);
        },
        _ => {},
    }
}

/// Starting to run keeps what is waited for in order.
pub proof fn lemma_settle_waits_well(s: EngineView)
    requires
        s.waits_well(),
    ensures
        s.settle().0.waits_well(),
        s.settle().0.vars == s.vars,
{
}

/// A tick keeps what is waited for in order.
pub proof fn lemma_tick_waits_well(s: EngineView, clock: Option<int>, results: Seq<Option<bool>>)
    requires
        s.waits_well(),
    ensures
        s.tick_if_due(clock, results).0.waits_well(),
{
}

/// One message with what the clock and the script engine gave while it was
/// handled.
pub struct Event {
    pub msg: EngineMsg,
    pub clock: Option<int>,
    pub results: Seq<Option<bool>>,
}

impl EngineView {
    /// The engine after a run of messages.
    pub open spec fn run(self, events: Seq<Event>) -> EngineView
        decreases events.len(),
    {
        if events.len() == 0 {
            self
        } else {
            self.run(events.drop_last()).step(
                events.last().msg,
                events.last().clock,
                events.last().results,
            ).0
        }
    }
}

/// Every event holds one outcome for each of `n` rules.
pub open spec fn events_fit(events: Seq<Event>, n: nat) -> bool {
    forall|i: int| 0 <= i < events.len() ==> (#[trigger] events[i]).results.len() == n
}

/// Over any run of messages, whatever the clock and the script engine give: the
/// managers stay well formed, the rules stay, what is waited for stays in order,
/// and the deadline never moves back.
pub proof fn lemma_run(s: EngineView, events: Seq<Event>)
    requires
        s.wf(),
        s.waits_well(),
        events_fit(events, s.rules.rules.len()),
    ensures
        s.run(events).wf(),
        s.run(events).waits_well(),
        s.run(events).rules.rules == s.rules.rules,
        s.run(events).sleep.nearest_possible_suspend >= s.sleep.nearest_possible_suspend,
        s.run(events).sleep.knobs == s.sleep.knobs,
    decreases events.len(),
{
    if events.len() > 0 {
        let front = events.drop_last();
        let last = events.last();
        assert forall|i: int| 0 <= i < front.len() implies (#[trigger] front[i]).results.len()
            == s.rules.rules.len() by {
            assert(front[i] == events[i]);
        }
        lemma_run(s, front);
        let before = s.run(front);
        assert(events[events.len() - 1] == last);
        lemma_suspend_only_when_no_rule_true(before, last.msg, last.clock, last.results);
        lemma_step_waits_well(before, last.msg, last.clock, last.results);
    }
}

/// In a run of messages, a message is answered with a request to suspend only
/// where no rule evaluated to true while it was handled.
pub proof fn lemma_run_never_suspends_while_rule_true(s: EngineView, events: Seq<Event>, i: int)
    requires
        s.wf(),
        s.waits_well(),
        events_fit(events, s.rules.rules.len()),
        0 <= i < events.len(),
    ensures
        s.run(events.take(i)).step(
            events[i].msg,
            events[i].clock,
            events[i].results,
        ).1.asks_suspend() ==> !some_true(events[i].results),
{
    let front = events.take(i);
    assert forall|k: int| 0 <= k < front.len() implies (#[trigger] front[k]).results.len()
        == s.rules.rules.len() by {
        assert(front[k] == events[k]);
    }
    lemma_run(s, front);
    lemma_suspend_only_when_no_rule_true(
        s.run(front),
        events[i].msg,
        events[i].clock,
        events[i].results,
    );
}

/// An engine that is started on an admitted chassis runs at once exactly when
/// no variable is polled; else it waits for the probes of the polled variables,
/// and has asked for no more than to watch for suspends, to make the probes and
/// to ask each whether it is of use: the poll ticker is not asked for yet.
pub proof fn lemma_start(
    s: EngineView,
    rules: Seq<crate::rules::def::RuleDefView>,
    defs: Seq<crate::vars::def::VarDefView>,
    now: int,
)
    ensures
        s.init(rules, defs, now).0.state == EngineState::Running
            <==> crate::var_manager::poll_names(defs).len() == 0,
        s.init(rules, defs, now).0.state != EngineState::Running ==> s.init(
            rules,
            defs,
            now,
        ).0.state == EngineState::Initializing,
        s.init(rules, defs, now).0.vars.waitlist_active == crate::var_manager::poll_names(
            defs,
        ).to_set(),
        crate::var_manager::poll_names(defs).len() > 0 ==> s.init(rules, defs, now).1
            == OutputView::of(seq![WorkerMsgView::WatchPrepareForSleep] + load_msgs(defs)),
{
    let names = crate::var_manager::poll_names(defs);
    if names.len() == 0 {
        assert(names.to_set() =~= Set::<Seq<char>>::empty());
    } else {
        assert(names.contains(names[0]));
        assert(names.to_set().contains(names[0]));
    }
}

/// An initializing engine starts to run on a message exactly when the message
/// is an answer of a probe or of a poll and leaves no variable waited for: every
/// polled variable has then either been found of no use, and lost its
/// definition, or has returned from its first poll.
pub proof fn lemma_running_iff_initialized(
    s: EngineView,
    msg: EngineMsg,
    clock: Option<int>,
    results: Seq<Option<bool>>,
)
    requires
        s.state == EngineState::Initializing,
    ensures
        s.step(msg, clock, results).0.state == EngineState::Running <==> (msg is ReturnVarIsActive
            || msg is ReturnVarPoll) && s.step(msg, clock, results).0.vars.is_initialized(),
        s.step(msg, clock, results).0.state == EngineState::Running ==> forall|n: Seq<char>|
            !s.step(msg, clock, results).0.vars.waitlist_active.contains(n) && !s.step(
                msg,
                clock,
                results,
            ).0.vars.waitlist_poll.contains(n),
{
}

} // verus!
