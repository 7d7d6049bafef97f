use waketimed::config::Config;
use waketimed::messages::WorkerMsg;
use waketimed::params::{ParamValue, Params};
use waketimed::var_manager::{any_var_true, check_var_defs, VarManager};
use waketimed::vars::{
    BuiltinPollDef, CategoryAnyDef, VarDataType, VarDef, VarError, VarKind, VarName, VarValue,
};
use waketimed::text_map::TextMap;
use waketimed::text_set::TextSet;

fn var_name(name: &str) -> VarName {
    VarName::try_from(name.to_string()).expect("Invalid VarName")
}

fn poll_def(name: &str, builtin: &str, categories: &[&str]) -> VarDef {
    let mut params = Params::new();
    if builtin == "test_poll_bool" {
        params.insert("return_value".to_string(), ParamValue::Bool(true));
    }
    VarDef {
        name: var_name(name),
        data_type: VarDataType::Bool,
        categories: categories.iter().map(|c| var_name(c)).collect(),
        kind: VarKind::BuiltinPoll(BuiltinPollDef {
            builtin_name: builtin.to_string(),
            params,
        }),
    }
}

fn category_def(name: &str, category: &str, categories: &[&str]) -> VarDef {
    VarDef {
        name: var_name(name),
        data_type: VarDataType::Bool,
        categories: categories.iter().map(|c| var_name(c)).collect(),
        kind: VarKind::CategoryAny(CategoryAnyDef {
            category_name: var_name(category),
        }),
    }
}

fn run_and_term_defs() -> Vec<VarDef> {
    vec![
        category_def("test_category", "test_category", &[]),
        poll_def("test_inactive", "test_inactive", &[]),
        poll_def("test_poll_true", "test_poll_bool", &["test_category"]),
    ]
}

fn create_var_manager() -> VarManager {
    let mut cfg = Config::from_defaults();
    cfg.test_mode = true;
    cfg.poll_variable_interval = 100;
    VarManager::new(&cfg)
}

fn set_of(items: &[&str]) -> TextSet {
    let mut set = TextSet::new();
    for item in items {
        set.insert(item.to_string());
    }
    set
}

#[test]
fn test_category_vars() {
    let mut mgr = create_var_manager();
    mgr.init(run_and_term_defs())
        .expect("Failed to init VarManager.");
    let test_category = var_name("test_category");

    // Test that category_vars map was computed correctly.
    assert_eq!(mgr.category_vars().len(), 1, "{:?}", mgr.category_vars());
    let test_category_vars = mgr
        .category_vars()
        .get(test_category.as_str())
        .expect("Did not find test_category in category_vars.");
    assert_eq!(test_category_vars.len(), 1);
    assert_eq!(test_category_vars, &set_of(&["test_poll_true"]));

    // Test that category vars get updated correctly.
    mgr.update_category_vars();
    assert_eq!(
        mgr.vars()
            .get(test_category.as_str())
            .expect("Var test_category not found."),
        &VarValue::Bool(false)
    );
    mgr.handle_return_var_poll(var_name("test_poll_true"), Some(VarValue::Bool(true)));
    mgr.update_category_vars();
    assert_eq!(
        mgr.vars()
            .get(test_category.as_str())
            .expect("Var test_category not found."),
        &VarValue::Bool(true)
    );
    mgr.handle_return_var_poll(var_name("test_poll_true"), Some(VarValue::Bool(false)));
    mgr.update_category_vars();
    assert_eq!(
        mgr.vars()
            .get(test_category.as_str())
            .expect("Var test_category not found."),
        &VarValue::Bool(false)
    );
}

#[test]
fn init_asks_for_probes_and_waits_for_them() {
    let mut mgr = create_var_manager();
    assert!(mgr.is_initialized());
    let defs = run_and_term_defs();
    let msgs = mgr.init(defs.clone()).unwrap();
    assert_eq!(
        msgs,
        vec![
            WorkerMsg::LoadPollVarFns(defs[1].clone()),
            WorkerMsg::CallVarIsActive(var_name("test_inactive")),
            WorkerMsg::LoadPollVarFns(defs[2].clone()),
            WorkerMsg::CallVarIsActive(var_name("test_poll_true")),
        ]
    );
    assert!(!mgr.is_initialized());
    assert!(!mgr.waitlist_active_is_empty());
    assert!(mgr.waitlist_poll_is_empty());
    assert_eq!(mgr.waitlist_active(), &set_of(&["test_inactive", "test_poll_true"]));
    assert_eq!(mgr.var_defs().len(), 3);
    assert_eq!(
        mgr.spawn_poll_var_interval(),
        WorkerMsg::SpawnPollVarInterval(100)
    );
}

#[test]
fn scenario_inactive_pruning() {
    let mut mgr = create_var_manager();
    mgr.init(vec![
        poll_def("a", "test_poll_bool", &[]),
        poll_def("b", "test_inactive", &[]),
    ])
    .unwrap();
    let msgs = mgr.handle_return_var_is_active(&var_name("b"), false);
    assert!(msgs.is_empty());
    assert!(!mgr.is_initialized());
    // With the last answer the first poll begins, for the variables that are left.
    let msgs = mgr.handle_return_var_is_active(&var_name("a"), true);
    assert_eq!(msgs, vec![WorkerMsg::CallVarPoll(var_name("a"))]);
    assert_eq!(mgr.var_defs().len(), 1);
    assert_eq!(mgr.var_defs()[0].name(), &var_name("a"));
    assert!(mgr.waitlist_active_is_empty());
    assert_eq!(mgr.waitlist_poll(), &set_of(&["a"]));
    assert!(!mgr.is_initialized());
    mgr.handle_return_var_poll(var_name("a"), Some(VarValue::Bool(true)));
    assert!(mgr.is_initialized());
    assert_eq!(mgr.vars().len(), 1);
    assert_eq!(mgr.vars().get("a"), Some(&VarValue::Bool(true)));
    assert_eq!(mgr.vars().get("b"), None);
}

#[test]
fn pruning_takes_the_variable_out_of_its_categories() {
    let mut mgr = create_var_manager();
    mgr.init(vec![
        poll_def("p", "test_inactive", &["cat", "only_p"]),
        poll_def("r", "test_poll_bool", &["cat"]),
        category_def("q", "cat", &[]),
    ])
    .unwrap();
    assert_eq!(mgr.category_vars().len(), 2);
    assert_eq!(mgr.category_vars().get("cat"), Some(&set_of(&["p", "r"])));
    mgr.handle_return_var_is_active(&var_name("p"), false);
    assert_eq!(mgr.category_vars().len(), 1);
    assert_eq!(mgr.category_vars().get("cat"), Some(&set_of(&["r"])));
    assert_eq!(mgr.category_vars().get("only_p"), None);
}

#[test]
fn answers_that_were_not_waited_for_change_nothing() {
    let mut mgr = create_var_manager();
    mgr.init(vec![poll_def("a", "test_poll_bool", &[])]).unwrap();
    let msgs = mgr.handle_return_var_is_active(&var_name("zzz"), false);
    assert!(msgs.is_empty());
    assert_eq!(mgr.var_defs().len(), 1);
    assert_eq!(mgr.waitlist_active(), &set_of(&["a"]));
    mgr.handle_return_var_is_active(&var_name("a"), true);
    // A second answer for the same variable does not drop it.
    let msgs = mgr.handle_return_var_is_active(&var_name("a"), false);
    assert!(msgs.is_empty());
    assert_eq!(mgr.var_defs().len(), 1);
}

#[test]
fn failed_poll_keeps_the_last_value() {
    let mut mgr = create_var_manager();
    mgr.init(vec![poll_def("a", "test_poll_bool", &[])]).unwrap();
    mgr.handle_return_var_is_active(&var_name("a"), true);
    mgr.handle_return_var_poll(var_name("a"), Some(VarValue::Bool(true)));
    let msgs = mgr.poll_vars();
    assert_eq!(msgs, vec![WorkerMsg::CallVarPoll(var_name("a"))]);
    assert!(!mgr.waitlist_poll_is_empty());
    mgr.handle_return_var_poll(var_name("a"), None);
    assert!(mgr.waitlist_poll_is_empty());
    assert_eq!(mgr.vars().get("a"), Some(&VarValue::Bool(true)));
}

#[test]
fn definitions_with_one_name_twice_are_refused() {
    let mut mgr = create_var_manager();
    let defs = vec![
        poll_def("a", "test_poll_bool", &[]),
        poll_def("b", "test_poll_bool", &[]),
        category_def("a", "cat", &[]),
    ];
    assert_eq!(
        check_var_defs(&defs),
        Err(VarError::DuplicateName("a".to_string()))
    );
    assert_eq!(
        mgr.init(defs),
        Err(VarError::DuplicateName("a".to_string()))
    );
    assert!(mgr.var_defs().is_empty());
    assert!(mgr.is_initialized());
    assert_eq!(check_var_defs(&Vec::new()), Ok(()));
}

#[test]
fn scenario_category_aggregation() {
    let mut mgr = create_var_manager();
    mgr.init(vec![
        poll_def("p", "test_poll_bool", &["cat"]),
        category_def("q", "cat", &[]),
    ])
    .unwrap();
    mgr.handle_return_var_is_active(&var_name("p"), true);
    mgr.handle_return_var_poll(var_name("p"), Some(VarValue::Bool(true)));
    mgr.update_category_vars();
    assert_eq!(mgr.vars().get("q"), Some(&VarValue::Bool(true)));
    mgr.poll_vars();
    mgr.handle_return_var_poll(var_name("p"), Some(VarValue::Bool(false)));
    mgr.update_category_vars();
    assert_eq!(mgr.vars().get("q"), Some(&VarValue::Bool(false)));
}

#[test]
fn category_without_members_is_false() {
    let mut mgr = create_var_manager();
    mgr.init(vec![category_def("q", "cat", &[])]).unwrap();
    assert!(mgr.is_initialized());
    assert_eq!(mgr.category_vars().get("cat"), Some(&TextSet::new()));
    mgr.update_category_vars();
    assert_eq!(mgr.vars().get("q"), Some(&VarValue::Bool(false)));
}

#[test]
fn category_variables_are_computed_in_the_order_of_their_definitions() {
    // `outer` is true when `inner` is, and `inner` when `p` is.
    let mut mgr = create_var_manager();
    mgr.init(vec![
        poll_def("p", "test_poll_bool", &["c1"]),
        category_def("inner", "c1", &["c2"]),
        category_def("outer", "c2", &[]),
    ])
    .unwrap();
    mgr.handle_return_var_poll(var_name("p"), Some(VarValue::Bool(true)));
    mgr.update_category_vars();
    assert_eq!(mgr.vars().get("inner"), Some(&VarValue::Bool(true)));
    assert_eq!(mgr.vars().get("outer"), Some(&VarValue::Bool(true)));
    // Defined the other way round, `outer` sees the value that `inner` had before.
    let mut mgr = create_var_manager();
    mgr.init(vec![
        poll_def("p", "test_poll_bool", &["c1"]),
        category_def("outer", "c2", &[]),
        category_def("inner", "c1", &["c2"]),
    ])
    .unwrap();
    mgr.handle_return_var_poll(var_name("p"), Some(VarValue::Bool(true)));
    mgr.update_category_vars();
    assert_eq!(mgr.vars().get("inner"), Some(&VarValue::Bool(true)));
    assert_eq!(mgr.vars().get("outer"), Some(&VarValue::Bool(false)));
    mgr.update_category_vars();
    assert_eq!(mgr.vars().get("outer"), Some(&VarValue::Bool(true)));
}

#[test]
fn any_var_true_counts_missing_values_as_false() {
    let mut vars: TextMap<VarValue> = TextMap::new();
    vars.insert("a".to_string(), VarValue::Bool(false));
    assert!(!any_var_true(&vars, &set_of(&["a", "b"])));
    assert!(!any_var_true(&vars, &set_of(&[])));
    vars.insert("c".to_string(), VarValue::Bool(true));
    assert!(!any_var_true(&vars, &set_of(&["a", "b"])));
    assert!(any_var_true(&vars, &set_of(&["a", "b", "c"])));
}
