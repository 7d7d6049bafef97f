use waketimed::config::Config;
use waketimed::rule_manager::{all_compiled, outcomes_of, RuleManager};
use waketimed::vecs::reversed;
use waketimed::rules::{RuleDef, RuleError, RuleKind, RuleName, StayupBoolDef};
use waketimed::text_map::TextMap;
use waketimed::vars::VarValue;

fn rule_name(name: &str) -> RuleName {
    RuleName::try_from(name.to_string()).expect("Invalid RuleName")
}

fn rule(name: &str, script: &str) -> RuleDef {
    RuleDef {
        name: rule_name(name),
        kind: RuleKind::StayupBool(StayupBoolDef {
            value_script: script.to_string(),
        }),
    }
}

fn run_and_term_rules() -> Vec<RuleDef> {
    vec![
        rule("test_stayup_bool", "test_category && test_poll_true"),
        rule("test_is_defined_nonexistent_var", "is_def_var(\"nonexistent\")"),
        rule("test_use_nonexistent_var", "nonexistent"),
    ]
}

fn create_rule_manager() -> RuleManager {
    let mut cfg = Config::from_defaults();
    cfg.test_mode = true;
    RuleManager::new(&cfg)
}

fn vars_of(items: &[(&str, bool)]) -> TextMap<VarValue> {
    let mut vars = TextMap::new();
    for (name, value) in items {
        vars.insert(name.to_string(), VarValue::Bool(*value));
    }
    vars
}

#[test]
fn test_stayup_rules() {
    let mut mgr = create_rule_manager();
    mgr.init(run_and_term_rules())
        .expect("Failed to init RuleManager.");

    let mut vars: TextMap<VarValue> = TextMap::new();
    vars.insert("test_category".to_string(), VarValue::Bool(true));
    vars.insert("test_poll_true".to_string(), VarValue::Bool(true));

    mgr.reset_script_scope(&vars);
    mgr.compute_stayup_values();
    assert_eq!(mgr.stayup_values().get("test_stayup_bool"), Some(&true));

    vars.insert("test_category".to_string(), VarValue::Bool(false));
    mgr.reset_script_scope(&vars);
    mgr.compute_stayup_values();
    assert_eq!(mgr.stayup_values().get("test_stayup_bool"), Some(&false));
}

#[test]
fn rule_that_fails_to_evaluate_has_no_value() {
    let mut mgr = create_rule_manager();
    mgr.init(run_and_term_rules()).unwrap();
    assert_eq!(mgr.rule_count(), 3);
    assert!(!mgr.is_stayup_active());
    mgr.reset_script_scope(&vars_of(&[("test_category", true), ("test_poll_true", true)]));
    let results = mgr.compute_stayup_values();
    assert_eq!(results.len(), 3);
    assert_eq!(results[0], Ok(true));
    assert_eq!(results[1], Ok(false));
    assert!(results[2].is_err());
    assert_eq!(outcomes_of(&results), vec![Some(true), Some(false), None]);
    assert_eq!(mgr.stayup_values().len(), 2);
    assert_eq!(
        mgr.stayup_values().get("test_is_defined_nonexistent_var"),
        Some(&false)
    );
    assert_eq!(mgr.stayup_values().get("test_use_nonexistent_var"), None);
    assert!(mgr.is_stayup_active());
    // The same inputs give the same outputs.
    let again = mgr.compute_stayup_values();
    assert_eq!(outcomes_of(&again), vec![Some(true), Some(false), None]);
    mgr.reset_script_scope(&vars_of(&[("test_category", false), ("test_poll_true", true)]));
    mgr.compute_stayup_values();
    assert!(!mgr.is_stayup_active());
}

#[test]
fn value_of_a_rule_goes_away_when_it_stops_evaluating() {
    let mut mgr = create_rule_manager();
    mgr.init(vec![rule("r", "p")]).unwrap();
    mgr.reset_script_scope(&vars_of(&[("p", true)]));
    mgr.compute_stayup_values();
    assert_eq!(mgr.stayup_values().get("r"), Some(&true));
    assert!(mgr.is_stayup_active());
    mgr.reset_script_scope(&vars_of(&[]));
    mgr.compute_stayup_values();
    assert_eq!(mgr.stayup_values().get("r"), None);
    assert!(!mgr.is_stayup_active());
}

#[test]
fn script_constants_are_the_variables() {
    let mut mgr = create_rule_manager();
    mgr.init(vec![rule("both", "a && !b"), rule("not_bool", "40 + 2")])
        .unwrap();
    mgr.reset_script_scope(&vars_of(&[("a", true), ("b", false)]));
    let results = mgr.compute_stayup_values();
    assert_eq!(results[0], Ok(true));
    // A script that gives no truth value fails.
    assert!(results[1].is_err());
    mgr.reset_script_scope(&vars_of(&[("a", true), ("b", true)]));
    assert_eq!(mgr.compute_stayup_values()[0], Ok(false));
}

#[test]
fn script_that_never_ends_is_given_up() {
    let mut mgr = create_rule_manager();
    mgr.init(vec![rule("forever", "loop { }")]).unwrap();
    let results = mgr.compute_stayup_values();
    assert!(results[0].is_err());
    assert!(!mgr.is_stayup_active());
}

#[test]
fn script_can_neither_wait_nor_read_the_time() {
    let mut mgr = create_rule_manager();
    mgr.init(vec![
        rule("waits", "sleep(1e300); true"),
        rule("waits_long", "sleep(100000); true"),
        rule("reads_time", "timestamp().elapsed > 0.0"),
        rule("grows", "let s = \"ab\"; loop { s += s; }"),
        rule("plain", "!false && (true || false) && true != false"),
    ])
    .unwrap();
    let results = mgr.compute_stayup_values();
    assert!(results[0].is_err());
    assert!(results[1].is_err());
    assert!(results[2].is_err());
    assert!(results[3].is_err());
    assert_eq!(results[4], Ok(true));
}

#[test]
fn what_a_script_declares_does_not_reach_the_next() {
    let mut mgr = create_rule_manager();
    mgr.init(vec![rule("declares", "let x = true; x"), rule("reads", "x")])
        .unwrap();
    mgr.reset_script_scope(&vars_of(&[("p", true)]));
    let results = mgr.compute_stayup_values();
    assert_eq!(results[0], Ok(true));
    assert!(results[1].is_err());
    // The scope is as it was: the same again.
    let again = mgr.compute_stayup_values();
    assert_eq!(outcomes_of(&again), vec![Some(true), None]);
    assert_eq!(mgr.stayup_values().get("declares"), Some(&true));
    assert_eq!(mgr.stayup_values().get("reads"), None);
}

#[test]
fn stored_outcomes_are_the_stayup_values() {
    let mut mgr = create_rule_manager();
    mgr.init(vec![rule("r1", "true"), rule("r2", "true"), rule("r3", "true")])
        .unwrap();
    mgr.store_stayup_values(&vec![Some(false), Some(true), None]);
    assert_eq!(mgr.stayup_values().get("r1"), Some(&false));
    assert_eq!(mgr.stayup_values().get("r2"), Some(&true));
    assert_eq!(mgr.stayup_values().get("r3"), None);
    assert!(mgr.is_stayup_active());
    mgr.store_stayup_values(&vec![Some(false), None, Some(false)]);
    assert_eq!(mgr.stayup_values().get("r2"), None);
    assert_eq!(mgr.stayup_values().get("r3"), Some(&false));
    assert!(!mgr.is_stayup_active());
}

#[test]
fn script_that_does_not_compile_is_fatal() {
    let mut mgr = create_rule_manager();
    mgr.init(vec![rule("fine", "true")]).unwrap();
    let r = mgr.init(vec![rule("good", "a || b"), rule("bad", "a ||"), rule("worse", "(")]);
    match r {
        Err(RuleError::ScriptCompile(name, text)) => {
            assert_eq!(name, "bad");
            assert!(!text.is_empty());
        }
        other => panic!("unexpected: {:?}", other),
    }
    // Nothing has changed.
    assert_eq!(mgr.rule_count(), 1);
    assert_eq!(mgr.compute_stayup_values(), vec![Ok(true)]);
}

#[test]
fn rules_with_one_name_twice_are_refused() {
    let mut mgr = create_rule_manager();
    assert_eq!(
        mgr.init(vec![rule("r", "true"), rule("s", "true"), rule("r", "false")]),
        Err(RuleError::DuplicateName("r".to_string()))
    );
    assert_eq!(mgr.rule_count(), 0);
    assert_eq!(mgr.init(Vec::new()), Ok(()));
}

#[test]
fn compiled_rules_keep_their_definitions() {
    let mgr = create_rule_manager();
    let defs = vec![rule("good", "a || b"), rule("bad", "a ||")];
    let compiled = mgr.compile_stayup_value_asts(&defs);
    assert_eq!(compiled.len(), 2);
    assert_eq!(compiled[0].as_ref().ok().map(|c| c.def().clone()), Some(defs[0].clone()));
    assert!(matches!(&compiled[1], Err(RuleError::ScriptCompile(n, _)) if n == "bad"));
    assert!(matches!(all_compiled(compiled), Err(RuleError::ScriptCompile(n, _)) if n == "bad"));
    let compiled = mgr.compile_stayup_value_asts(&vec![rule("x", "true"), rule("y", "false")]);
    let rules = all_compiled(compiled).ok().unwrap();
    assert_eq!(rules[0].def().name().as_str(), "x");
    assert_eq!(rules[1].def().name().as_str(), "y");
    assert_eq!(reversed(vec![1, 2, 3]), vec![3, 2, 1]);
    assert_eq!(
        RuleError::DuplicateName("r".to_string()).to_string(),
        "Rule name 'r' is defined twice."
    );
}
