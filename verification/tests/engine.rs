use waketimed::config::Config;
use waketimed::engine::{EngineCore, EngineError, EngineOutput, EngineState};
use waketimed::messages::{EngineMsg, WorkerMsg};
use waketimed::params::{ParamValue, Params};
use waketimed::rules::{RuleDef, RuleError, RuleKind, RuleName, StayupBoolDef};
use waketimed::var_fns::{new_poll_var_fns, PollVarFns, ProbePlan, TestProbe};
use waketimed::vars::{
    BuiltinPollDef, CategoryAnyDef, VarDataType, VarDef, VarError, VarKind, VarName, VarValue,
};
use waketimed::worker::VarWorker;

const MS: u128 = 1_000_000;

fn var_name(name: &str) -> VarName {
    VarName::try_from(name.to_string()).expect("Invalid VarName")
}

fn poll_def(name: &str, builtin: &str, return_value: bool, categories: &[&str]) -> VarDef {
    let mut params = Params::new();
    if builtin == "test_poll_bool" {
        params.insert("return_value".to_string(), ParamValue::Bool(return_value));
    }
    VarDef {
        name: var_name(name),
        data_type: VarDataType::Bool,
        categories: categories.iter().map(|c| var_name(c)).collect(),
        kind: VarKind::BuiltinPoll(BuiltinPollDef {
            builtin_name: builtin.to_string(),
            params,
        }),
    }
}

fn category_def(name: &str, category: &str) -> VarDef {
    VarDef {
        name: var_name(name),
        data_type: VarDataType::Bool,
        categories: Vec::new(),
        kind: VarKind::CategoryAny(CategoryAnyDef {
            category_name: var_name(category),
        }),
    }
}

fn rule(name: &str, script: &str) -> RuleDef {
    RuleDef {
        name: RuleName::try_from(name.to_string()).expect("Invalid RuleName"),
        kind: RuleKind::StayupBool(StayupBoolDef {
            value_script: script.to_string(),
        }),
    }
}

fn config(startup: u64, cleared: u64, interval: u64, minimum: u64) -> Config {
    let mut cfg = Config::from_defaults();
    cfg.test_mode = true;
    cfg.startup_awake_time = startup;
    cfg.stayup_cleared_awake_time = cleared;
    cfg.poll_variable_interval = interval;
    cfg.minimum_awake_time = minimum;
    cfg
}

fn quiet() -> EngineOutput {
    EngineOutput {
        worker_msgs: Vec::new(),
        self_terminate: false,
        ignored: false,
    }
}

fn ignored() -> EngineOutput {
    EngineOutput {
        worker_msgs: Vec::new(),
        self_terminate: false,
        ignored: true,
    }
}

fn msgs(worker_msgs: Vec<WorkerMsg>) -> EngineOutput {
    EngineOutput {
        worker_msgs,
        self_terminate: false,
        ignored: false,
    }
}

/// Does what the worker does with the messages of the engine, with test probes,
/// and hands the answers back until nothing is left to answer.
fn drive(
    engine: &mut EngineCore,
    worker: &mut VarWorker<TestProbe>,
    first: Vec<WorkerMsg>,
    now: u128,
) -> Vec<WorkerMsg> {
    let mut seen = Vec::new();
    let mut todo = first;
    while !todo.is_empty() {
        let msg = todo.remove(0);
        seen.push(msg.clone());
        let answer = match msg {
            WorkerMsg::LoadPollVarFns(def) => {
                let made = match new_poll_var_fns(&def) {
                    Ok(ProbePlan::Test(probe)) => Some(probe),
                    _ => None,
                };
                worker.handle_load_poll_var_fns(def.name(), made);
                None
            }
            WorkerMsg::CallVarIsActive(name) => Some(worker.handle_call_var_is_active(name)),
            WorkerMsg::CallVarPoll(name) => Some(worker.handle_call_var_poll(name)),
            _ => None,
        };
        if let Some(answer) = answer {
            let out = engine.handle_msg_at(answer, now);
            assert!(!out.self_terminate);
            assert!(!out.ignored);
            todo.extend(out.worker_msgs);
        }
    }
    seen
}

#[test]
fn scenario_minimal_run_and_terminate() {
    let mut engine = EngineCore::new(&config(0, 0, 1000, 0));
    assert_eq!(engine.state(), EngineState::Initializing);
    let out = engine.init(true, Vec::new(), Vec::new()).unwrap();
    assert_eq!(
        out,
        msgs(vec![
            WorkerMsg::WatchPrepareForSleep,
            WorkerMsg::SpawnPollVarInterval(1000)
        ])
    );
    assert_eq!(engine.state(), EngineState::Running);
    let out = engine.handle_msg(EngineMsg::Terminate);
    assert_eq!(out, msgs(vec![WorkerMsg::Terminate]));
    assert_eq!(engine.state(), EngineState::Terminating);
    // A terminating engine takes nothing more.
    assert_eq!(engine.handle_msg(EngineMsg::PollVarsTick), ignored());
    assert_eq!(engine.handle_msg(EngineMsg::Terminate), ignored());
    assert_eq!(engine.state(), EngineState::Terminating);
}

#[test]
fn scenario_disabled() {
    let mut engine = EngineCore::new(&config(0, 0, 1000, 0));
    let out = engine
        .init(false, vec![rule("r", "p")], vec![poll_def("p", "test_poll_bool", true, &[])])
        .unwrap();
    assert_eq!(out, quiet());
    assert_eq!(engine.state(), EngineState::Disabled);
    assert_eq!(engine.get_status(), Ok((0, true)));
    assert_eq!(engine.var_manager().var_defs().len(), 0);
    assert_eq!(engine.handle_msg_at(EngineMsg::PollVarsTick, 5), ignored());
    assert_eq!(
        engine.handle_msg_at(EngineMsg::ReturnVarPoll(var_name("p"), None), 5),
        ignored()
    );
    assert_eq!(engine.handle_msg_at(EngineMsg::SystemIsResuming, 5), ignored());
    assert_eq!(engine.state(), EngineState::Disabled);
    assert_eq!(
        engine.handle_msg_at(EngineMsg::Terminate, 5),
        msgs(vec![WorkerMsg::Terminate])
    );
    assert_eq!(engine.state(), EngineState::Terminating);
}

#[test]
fn scenario_inactive_pruning_through_the_engine() {
    let mut engine = EngineCore::new(&config(0, 0, 1000, 0));
    let mut worker: VarWorker<TestProbe> = VarWorker::new();
    let out = engine
        .init_at(
            true,
            Vec::new(),
            vec![
                poll_def("a", "test_poll_bool", true, &[]),
                poll_def("b", "test_inactive", false, &[]),
            ],
            0,
        )
        .unwrap();
    assert_eq!(engine.state(), EngineState::Initializing);
    let seen = drive(&mut engine, &mut worker, out.worker_msgs, 10);
    assert_eq!(engine.state(), EngineState::Running);
    assert!(seen.contains(&WorkerMsg::CallVarPoll(var_name("a"))));
    assert!(!seen.contains(&WorkerMsg::CallVarPoll(var_name("b"))));
    assert!(seen.contains(&WorkerMsg::SpawnPollVarInterval(1000)));
    let vars = engine.var_manager().vars();
    assert_eq!(vars.len(), 1);
    assert_eq!(vars.get("a"), Some(&VarValue::Bool(true)));
    assert_eq!(engine.var_manager().var_defs().len(), 1);
    assert_eq!(engine.var_manager().var_defs()[0].name(), &var_name("a"));
    assert!(worker.is_loaded("a"));
    assert!(!worker.is_loaded("b"));
}

#[test]
fn engine_runs_only_when_every_variable_has_answered() {
    let mut engine = EngineCore::new(&config(0, 0, 1000, 0));
    engine
        .init_at(
            true,
            Vec::new(),
            vec![
                poll_def("a", "test_poll_bool", true, &[]),
                poll_def("b", "test_poll_bool", true, &[]),
            ],
            0,
        )
        .unwrap();
    assert_eq!(
        engine.handle_msg_at(EngineMsg::ReturnVarIsActive(var_name("a"), true), 1),
        quiet()
    );
    assert_eq!(engine.state(), EngineState::Initializing);
    // A tick of the poll ticker is not taken yet.
    assert_eq!(engine.handle_msg_at(EngineMsg::PollVarsTick, 1), ignored());
    assert_eq!(engine.handle_msg_at(EngineMsg::SystemIsSuspending, 1), ignored());
    assert_eq!(
        engine.handle_msg_at(EngineMsg::ReturnVarIsActive(var_name("b"), true), 1),
        msgs(vec![
            WorkerMsg::CallVarPoll(var_name("a")),
            WorkerMsg::CallVarPoll(var_name("b"))
        ])
    );
    assert_eq!(engine.state(), EngineState::Initializing);
    assert_eq!(
        engine.handle_msg_at(
            EngineMsg::ReturnVarPoll(var_name("a"), Some(VarValue::Bool(false))),
            1
        ),
        quiet()
    );
    assert_eq!(engine.state(), EngineState::Initializing);
    // A poll that could not tell counts as returned. The engine runs, and ticks:
    // no rule is true and the deadline has passed.
    assert_eq!(
        engine.handle_msg_at(EngineMsg::ReturnVarPoll(var_name("b"), None), 1),
        msgs(vec![
            WorkerMsg::SpawnPollVarInterval(1000),
            WorkerMsg::Suspend(true)
        ])
    );
    assert_eq!(engine.state(), EngineState::Running);
    // A running engine takes no answers of probes.
    assert_eq!(
        engine.handle_msg_at(EngineMsg::ReturnVarIsActive(var_name("a"), false), 1),
        ignored()
    );
    assert_eq!(engine.var_manager().var_defs().len(), 2);
}

#[test]
fn all_variables_inactive_leads_to_running() {
    let mut engine = EngineCore::new(&config(0, 0, 1000, 0));
    engine
        .init_at(true, Vec::new(), vec![poll_def("b", "test_inactive", false, &[])], 0)
        .unwrap();
    assert_eq!(
        engine.handle_msg_at(EngineMsg::ReturnVarIsActive(var_name("b"), false), 1),
        msgs(vec![WorkerMsg::SpawnPollVarInterval(1000)])
    );
    assert_eq!(engine.state(), EngineState::Running);
    assert!(engine.var_manager().var_defs().is_empty());
}

#[test]
fn scenario_category_aggregation_through_the_engine() {
    let mut engine = EngineCore::new(&config(0, 0, 1000, 0));
    let mut worker: VarWorker<TestProbe> = VarWorker::new();
    let out = engine
        .init_at(
            true,
            Vec::new(),
            vec![
                poll_def("p", "test_poll_bool", true, &["cat"]),
                category_def("q", "cat"),
            ],
            0,
        )
        .unwrap();
    drive(&mut engine, &mut worker, out.worker_msgs, 10);
    assert_eq!(engine.state(), EngineState::Running);
    assert_eq!(engine.var_manager().vars().get("q"), Some(&VarValue::Bool(true)));
    // The poll of p gives false from now on.
    let out = engine.handle_msg_at(EngineMsg::PollVarsTick, 20);
    assert_eq!(out, msgs(vec![WorkerMsg::CallVarPoll(var_name("p"))]));
    engine.handle_msg_at(
        EngineMsg::ReturnVarPoll(var_name("p"), Some(VarValue::Bool(false))),
        20,
    );
    assert_eq!(engine.var_manager().vars().get("q"), Some(&VarValue::Bool(false)));
}

#[test]
fn scenario_stayup_gating() {
    let mut engine = EngineCore::new(&config(0, 0, 1000, 0));
    let mut worker: VarWorker<TestProbe> = VarWorker::new();
    let out = engine
        .init_at(
            true,
            vec![rule("r", "p")],
            vec![poll_def("p", "test_poll_bool", true, &[])],
            0,
        )
        .unwrap();
    let seen = drive(&mut engine, &mut worker, out.worker_msgs, 10 * MS);
    assert!(engine.rule_manager().is_stayup_active());
    assert!(engine.sleep_manager().is_stayup_active());
    assert!(!seen.contains(&WorkerMsg::Suspend(true)));
    assert_eq!(engine.sleep_manager().nearest_possible_suspend(), 1_010 * MS);
    // p turns false. The tick is at the deadline, which has not passed.
    engine.handle_msg_at(EngineMsg::PollVarsTick, 1_010 * MS);
    let out = engine.handle_msg_at(
        EngineMsg::ReturnVarPoll(var_name("p"), Some(VarValue::Bool(false))),
        1_010 * MS,
    );
    assert_eq!(out, quiet());
    assert!(!engine.rule_manager().is_stayup_active());
    // The next tick is past the deadline: one request to suspend.
    engine.handle_msg_at(EngineMsg::PollVarsTick, 2_010 * MS);
    let out = engine.handle_msg_at(
        EngineMsg::ReturnVarPoll(var_name("p"), Some(VarValue::Bool(false))),
        2_010 * MS,
    );
    assert_eq!(out, msgs(vec![WorkerMsg::Suspend(true)]));
}

#[test]
fn scenario_suspend_lifecycle_through_the_engine() {
    let mut engine = EngineCore::new(&config(0, 0, 1000, 10_000));
    engine.init_at(true, Vec::new(), Vec::new(), 0).unwrap();
    let out = engine.handle_msg_at(EngineMsg::PollVarsTick, 1 * MS);
    assert_eq!(out, msgs(vec![WorkerMsg::Suspend(true)]));
    assert_eq!(engine.handle_msg_at(EngineMsg::SystemIsSuspending, 2 * MS), quiet());
    assert!(engine.sleep_manager().is_suspend_in_progress());
    assert_eq!(engine.handle_msg_at(EngineMsg::PollVarsTick, 3 * MS), quiet());
    let before = engine.sleep_manager().nearest_possible_suspend();
    assert_eq!(engine.handle_msg_at(EngineMsg::SystemIsResuming, 100 * MS), quiet());
    assert!(!engine.sleep_manager().is_suspend_in_progress());
    assert_eq!(engine.sleep_manager().nearest_possible_suspend(), 10_100 * MS);
    assert!(engine.sleep_manager().nearest_possible_suspend() >= before + 10_000 * MS);
    assert_eq!(engine.handle_msg_at(EngineMsg::PollVarsTick, 5_000 * MS), quiet());
    assert_eq!(engine.handle_msg_at(EngineMsg::PollVarsTick, 10_100 * MS), quiet());
    assert_eq!(
        engine.handle_msg_at(EngineMsg::PollVarsTick, 10_101 * MS),
        msgs(vec![WorkerMsg::Suspend(true)])
    );
    assert_eq!(engine.get_status_at(10_101 * MS), (0, false));
    assert!(matches!(engine.get_status(), Ok((_, false))));
    assert_eq!(engine.get_status_at(100 * MS), (10_000, false));
}

#[test]
fn startup_awake_time_zero_allows_suspend_after_the_first_evaluation() {
    let mut engine = EngineCore::new(&config(0, 10_000, 3_000, 10_000));
    engine.init_at(true, vec![rule("r", "false")], Vec::new(), 50).unwrap();
    assert_eq!(engine.state(), EngineState::Running);
    assert_eq!(
        engine.handle_msg_at(EngineMsg::PollVarsTick, 51),
        msgs(vec![WorkerMsg::Suspend(true)])
    );
}

#[test]
fn given_outcomes_take_the_place_of_the_scripts() {
    let mut engine = EngineCore::new(&config(0, 0, 1000, 0));
    engine
        .init_at(true, vec![rule("r1", "false"), rule("r2", "false")], Vec::new(), 0)
        .unwrap();
    let out = engine.handle_msg_with(EngineMsg::PollVarsTick, 5 * MS, &vec![None, Some(true)]);
    assert_eq!(out, quiet());
    assert!(engine.rule_manager().is_stayup_active());
    assert_eq!(engine.rule_manager().stayup_values().get("r1"), None);
    assert_eq!(engine.rule_manager().stayup_values().get("r2"), Some(&true));
    assert_eq!(engine.sleep_manager().nearest_possible_suspend(), 1_005 * MS);
    let out = engine.handle_msg_with(EngineMsg::PollVarsTick, 1_005 * MS + 1, &vec![None, None]);
    assert_eq!(out, msgs(vec![WorkerMsg::Suspend(true)]));
    assert!(!engine.rule_manager().is_stayup_active());
}

#[test]
fn engine_refuses_bad_definitions() {
    let mut engine = EngineCore::new(&config(0, 0, 1000, 0));
    let twice = vec![
        poll_def("a", "test_poll_bool", true, &[]),
        poll_def("a", "test_inactive", true, &[]),
    ];
    assert_eq!(
        engine.init_at(true, vec![rule("r", "a")], twice, 0),
        Err(EngineError::Var(VarError::DuplicateName("a".to_string())))
    );
    assert_eq!(engine.rule_manager().rule_count(), 0);
    assert!(matches!(
        engine.init_at(true, vec![rule("r", "a &&")], Vec::new(), 0),
        Err(EngineError::Rule(RuleError::ScriptCompile(_, _)))
    ));
    assert_eq!(engine.state(), EngineState::Initializing);
    assert_eq!(engine.sleep_manager().nearest_possible_suspend(), 0);
}

#[test]
fn test_probes_answer_as_they_are_named() {
    let mut probe = match new_poll_var_fns(&poll_def("a", "test_poll_bool", false, &[])) {
        Ok(ProbePlan::Test(p)) => p,
        other => panic!("unexpected: {:?}", other),
    };
    assert!(probe.is_active());
    assert_eq!(probe.poll(), Some(VarValue::Bool(false)));
}
