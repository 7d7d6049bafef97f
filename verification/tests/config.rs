use waketimed::config::{
    check_and_repair_config, check_config_dir, default_allowed_chassis_types, default_config_dir,
    default_log, default_minimum_awake_time, default_poll_variable_interval,
    default_startup_awake_time, default_stayup_cleared_awake_time, default_test_mode,
    default_test_skip_embedded_defs, populate_config_from_env, Config, ConfigError, DirStatus,
    EnvSettings,
};
use waketimed::parse::{parse_bool, parse_u64, split_commas};
use waketimed::text::decimal;

fn no_env() -> EnvSettings {
    EnvSettings {
        log: None,
        config_dir: None,
        startup_awake_time: None,
        minimum_awake_time: None,
        stayup_cleared_awake_time: None,
        poll_variable_interval: None,
        allowed_chassis_types: None,
        test_mode: None,
        test_skip_embedded_defs: None,
    }
}

#[test]
fn defaults() {
    assert_eq!(default_log(), "info");
    assert_eq!(default_config_dir(), "/etc/waketimed");
    assert_eq!(default_startup_awake_time(), 300_000);
    assert_eq!(default_minimum_awake_time(), 10_000);
    assert_eq!(default_stayup_cleared_awake_time(), 10_000);
    assert_eq!(default_poll_variable_interval(), 3_000);
    assert_eq!(
        default_allowed_chassis_types(),
        vec!["convertible", "embedded", "handset", "tablet", "watch"]
    );
    assert!(!default_test_mode());
    assert!(!default_test_skip_embedded_defs());
    let cfg = Config::from_defaults();
    assert_eq!(cfg.log, "info");
    assert_eq!(cfg.poll_variable_interval, 3_000);
    assert_eq!(cfg.allowed_chassis_types.len(), 5);
    let empty = Config::default();
    assert_eq!(empty.log, "");
    assert_eq!(empty.poll_variable_interval, 0);
    assert!(empty.allowed_chassis_types.is_empty());
}

#[test]
fn definition_directories() {
    let mut cfg = Config::from_defaults();
    assert_eq!(cfg.config_dir(), Some("/etc/waketimed".to_string()));
    assert_eq!(
        cfg.config_rule_def_dir(),
        Some("/etc/waketimed/rule_def".to_string())
    );
    assert_eq!(
        cfg.config_var_def_dir(),
        Some("/etc/waketimed/var_def".to_string())
    );
    assert_eq!(
        cfg.rule_def_dirs(),
        vec![
            "/__WAKETIMED_EMBEDDED__/rule_def".to_string(),
            "/etc/waketimed/rule_def".to_string()
        ]
    );
    assert_eq!(
        cfg.var_def_dirs(),
        vec![
            "/__WAKETIMED_EMBEDDED__/var_def".to_string(),
            "/etc/waketimed/var_def".to_string()
        ]
    );
    cfg.test_skip_embedded_defs = true;
    cfg.config_dir = "tests/data/run_and_term/".to_string();
    assert_eq!(
        cfg.rule_def_dirs(),
        vec!["tests/data/run_and_term/rule_def".to_string()]
    );
    cfg.config_dir = String::new();
    assert_eq!(cfg.config_dir(), None);
    assert_eq!(cfg.config_rule_def_dir(), None);
    assert_eq!(cfg.config_var_def_dir(), None);
    assert!(cfg.var_def_dirs().is_empty());
    cfg.test_skip_embedded_defs = false;
    assert_eq!(
        cfg.var_def_dirs(),
        vec!["/__WAKETIMED_EMBEDDED__/var_def".to_string()]
    );
}

#[test]
fn environment_overrides_the_settings() {
    let mut cfg = Config::from_defaults();
    let mut env = no_env();
    assert_eq!(populate_config_from_env(&mut cfg, &env), Ok(()));
    assert_eq!(cfg.log, "info");
    assert_eq!(cfg.startup_awake_time, 300_000);
    env.log = Some("waketimed=trace".to_string());
    env.config_dir = Some("/tmp/cfg".to_string());
    env.startup_awake_time = Some("0".to_string());
    env.minimum_awake_time = Some("+15".to_string());
    env.stayup_cleared_awake_time = Some("18446744073709551615".to_string());
    env.poll_variable_interval = Some("0100".to_string());
    env.allowed_chassis_types = Some("handset,all,,tablet".to_string());
    env.test_mode = Some("true".to_string());
    env.test_skip_embedded_defs = Some("false".to_string());
    assert_eq!(populate_config_from_env(&mut cfg, &env), Ok(()));
    assert_eq!(cfg.log, "waketimed=trace");
    assert_eq!(cfg.config_dir, "/tmp/cfg");
    assert_eq!(cfg.startup_awake_time, 0);
    assert_eq!(cfg.minimum_awake_time, 15);
    assert_eq!(cfg.stayup_cleared_awake_time, u64::MAX);
    assert_eq!(cfg.poll_variable_interval, 100);
    assert_eq!(cfg.allowed_chassis_types, vec!["handset", "all", "", "tablet"]);
    assert!(cfg.test_mode);
    assert!(!cfg.test_skip_embedded_defs);
    env.allowed_chassis_types = Some(String::new());
    assert_eq!(populate_config_from_env(&mut cfg, &env), Ok(()));
    assert_eq!(cfg.allowed_chassis_types, vec![""]);
}

#[test]
fn unreadable_environment_is_refused() {
    let mut cfg = Config::from_defaults();
    let mut env = no_env();
    env.log = Some("debug".to_string());
    env.minimum_awake_time = Some("ten".to_string());
    env.test_mode = Some("yes".to_string());
    assert_eq!(
        populate_config_from_env(&mut cfg, &env),
        Err(ConfigError::InvalidInteger(
            "WAKETIMED_MINIMUM_AWAKE_TIME".to_string(),
            "ten".to_string()
        ))
    );
    // Nothing has changed.
    assert_eq!(cfg.log, "info");
    env.minimum_awake_time = None;
    assert_eq!(
        populate_config_from_env(&mut cfg, &env),
        Err(ConfigError::InvalidBool(
            "WAKETIMED_TEST_MODE".to_string(),
            "yes".to_string()
        ))
    );
    env.test_mode = None;
    env.poll_variable_interval = Some("18446744073709551616".to_string());
    assert!(matches!(
        populate_config_from_env(&mut cfg, &env),
        Err(ConfigError::InvalidInteger(_, _))
    ));
}

#[test]
fn poll_interval_zero_is_rejected() {
    let mut cfg = Config::from_defaults();
    assert_eq!(check_and_repair_config(&mut cfg, DirStatus::Missing), Ok(()));
    cfg.poll_variable_interval = 0;
    assert_eq!(
        check_and_repair_config(&mut cfg, DirStatus::Directory),
        Err(ConfigError::ZeroPollInterval)
    );
    cfg.poll_variable_interval = 1;
    assert_eq!(check_and_repair_config(&mut cfg, DirStatus::Directory), Ok(()));
}

#[test]
fn directory_of_definitions_must_be_there_unless_it_is_the_usual_one() {
    let mut cfg = Config::from_defaults();
    assert_eq!(check_config_dir(&cfg, DirStatus::Missing), Ok(()));
    assert_eq!(check_config_dir(&cfg, DirStatus::NotDirectory), Ok(()));
    cfg.config_dir = "/opt/waketimed".to_string();
    assert_eq!(check_config_dir(&cfg, DirStatus::Directory), Ok(()));
    assert_eq!(
        check_config_dir(&cfg, DirStatus::Missing),
        Err(ConfigError::ConfigDirMissing("/opt/waketimed".to_string()))
    );
    assert_eq!(
        check_config_dir(&cfg, DirStatus::NotDirectory),
        Err(ConfigError::ConfigDirNotDirectory("/opt/waketimed".to_string()))
    );
    assert_eq!(
        check_and_repair_config(&mut cfg, DirStatus::Missing),
        Err(ConfigError::ConfigDirMissing("/opt/waketimed".to_string()))
    );
    cfg.config_dir = String::new();
    assert_eq!(check_config_dir(&cfg, DirStatus::Missing), Ok(()));
}

#[test]
fn numbers_and_truth_values_from_text() {
    assert_eq!(parse_u64("0"), Some(0));
    assert_eq!(parse_u64("3000"), Some(3000));
    assert_eq!(parse_u64("+7"), Some(7));
    assert_eq!(parse_u64("007"), Some(7));
    assert_eq!(parse_u64("18446744073709551615"), Some(u64::MAX));
    assert_eq!(parse_u64("18446744073709551616"), None);
    assert_eq!(parse_u64("99999999999999999999999"), None);
    assert_eq!(parse_u64(""), None);
    assert_eq!(parse_u64("+"), None);
    assert_eq!(parse_u64("-1"), None);
    assert_eq!(parse_u64("++1"), None);
    assert_eq!(parse_u64(" 1"), None);
    assert_eq!(parse_u64("1 "), None);
    assert_eq!(parse_u64("1_000"), None);
    assert_eq!(parse_u64("١"), None);
    for text in [
        "0",
        "+7",
        "007",
        "18446744073709551615",
        "18446744073709551616",
        "",
        "+",
        "-1",
        "1e3",
    ] {
        assert_eq!(parse_u64(text), text.parse::<u64>().ok());
    }
    assert_eq!(parse_bool("true"), Some(true));
    assert_eq!(parse_bool("false"), Some(false));
    assert_eq!(parse_bool("True"), None);
    assert_eq!(parse_bool("1"), None);
    assert_eq!(parse_bool(""), None);
}

#[test]
fn lists_from_text() {
    assert_eq!(split_commas("a,b"), vec!["a", "b"]);
    assert_eq!(split_commas("handset"), vec!["handset"]);
    assert_eq!(split_commas(""), vec![""]);
    assert_eq!(split_commas(","), vec!["", ""]);
    assert_eq!(split_commas("a,,č,"), vec!["a", "", "č", ""]);
    for text in ["a,b", "", ",", ",a", "a,,b,", "all"] {
        let expected: Vec<String> = text.split(',').map(|s| s.to_string()).collect();
        assert_eq!(split_commas(text), expected);
    }
    assert_eq!(decimal(0), "0");
    assert_eq!(decimal(40), "40");
    assert_eq!(decimal(1234567890), "1234567890");
}
