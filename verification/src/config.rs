//! The settings of the daemon.

use vstd::prelude::*;
use crate::embedded_files::{PREFIX_RULE_DEF, PREFIX_VAR_DEF};
use crate::parse::{
    bool_of, comma_free, comma_join, parse_bool, parse_u64, part_texts, split_commas, u64_of,
};
use crate::paths::{join, joined};
use crate::text::str_eq;

verus! {

/// The settings of the daemon. All times are in milliseconds.
#[derive(Clone, Debug)]
pub struct Config {
    /// Log filter.
    pub log: String,
    /// Directory with further rule and variable definitions; empty for none.
    pub config_dir: String,
    /// Time between two polls of the variables.
    pub poll_variable_interval: u64,
    /// Chassis types on which the daemon works; `all` admits every type.
    pub allowed_chassis_types: Vec<String>,
    /// Time to stay up after the daemon starts.
    pub startup_awake_time: u64,
    /// Time to stay up after the system wakes.
    pub minimum_awake_time: u64,
    /// Time to stay up after the last stayup rule turned false.
    pub stayup_cleared_awake_time: u64,
    /// In test mode the system is never suspended.
    pub test_mode: bool,
    /// Leave the built-in definitions out.
    pub test_skip_embedded_defs: bool,
}

/// The environment variable that names the settings file.
pub const CONFIG_FILE_VAR: &'static str = "WAKETIMED_CONFIG";

/// The settings file that is read where none is named.
pub const DEFAULT_CONFIG_FILE: &'static str = "/etc/waketimed/config.yaml";

/// The directory of definitions that is read where none is named.
pub const DEFAULT_CONFIG_DIR: &'static str = "/etc/waketimed";

/// The directory of rule definitions inside a directory of definitions.
pub const RULE_DEF_DIR: &'static str = "rule_def";

/// The directory of variable definitions inside a directory of definitions.
pub const VAR_DEF_DIR: &'static str = "var_def";

/// The texts of the allowed chassis types.
pub open spec fn chassis_texts(types: Seq<String>) -> Seq<Seq<char>> {
    types.map_values(|t: String| t@)
}

/// The log filter that holds where none is set.
pub fn default_log() -> (r: String)
    ensures
        r@ == "info"@,
{
    "info".to_owned()
}

/// The directory of definitions that holds where none is set.
pub fn default_config_dir() -> (r: String)
    ensures
        r@ == DEFAULT_CONFIG_DIR@,
{
    DEFAULT_CONFIG_DIR.to_owned()
}

/// Five minutes.
pub fn default_startup_awake_time() -> (r: u64)
    ensures
        r == 300_000,
{
    300_000
}

/// Ten seconds.
pub fn default_minimum_awake_time() -> (r: u64)
    ensures
        r == 10_000,
{
    10_000
}

/// Ten seconds.
pub fn default_stayup_cleared_awake_time() -> (r: u64)
    ensures
        r == 10_000,
{
    10_000
}

/// Three seconds.
pub fn default_poll_variable_interval() -> (r: u64)
    ensures
        r == 3_000,
{
    3_000
}

/// The chassis types of machines that are carried about.
pub open spec fn default_chassis_types() -> Seq<Seq<char>> {
    seq!["convertible"@, "embedded"@, "handset"@, "tablet"@, "watch"@]
}

/// The chassis types of machines that are carried about.
pub fn default_allowed_chassis_types() -> (r: Vec<String>)
    ensures
        chassis_texts(r@) == default_chassis_types(),
{
    let mut r: Vec<String> = Vec::new();
    r.push("convertible".to_owned());
    r.push("embedded".to_owned());
    r.push("handset".to_owned());
    r.push("tablet".to_owned());
    r.push("watch".to_owned());
    assert(chassis_texts(r@) =~= default_chassis_types());
    r
}

/// Test mode is off where it is not set.
pub fn default_test_mode() -> (r: bool)
    ensures
        !r,
{
    false
}

/// The built-in definitions are read where nothing else is set.
pub fn default_test_skip_embedded_defs() -> (r: bool)
    ensures
        !r,
{
    false
}

impl Default for Config {
    /// Settings in which every text is empty, every time zero and every switch off.
    fn default() -> (cfg: Config)
        ensures
            cfg.log@.len() == 0,
            cfg.config_dir@.len() == 0,
            cfg.poll_variable_interval == 0,
            cfg.allowed_chassis_types@.len() == 0,
            cfg.startup_awake_time == 0,
            cfg.minimum_awake_time == 0,
            cfg.stayup_cleared_awake_time == 0,
            !cfg.test_mode,
            !cfg.test_skip_embedded_defs,
    {
        Config {
            log: String::new(),
            config_dir: String::new(),
            poll_variable_interval: 0,
            allowed_chassis_types: Vec::new(),
            startup_awake_time: 0,
            minimum_awake_time: 0,
            stayup_cleared_awake_time: 0,
            test_mode: false,
            test_skip_embedded_defs: false,
        }
    }
}

/// What is wrong with the settings.
#[derive(Debug, Clone, PartialEq, Eq)]
pub enum ConfigError {
    /// The named variable of the environment holds no number; its value follows.
    InvalidInteger(String, String),
    /// The named variable of the environment holds no truth value; its value follows.
    InvalidBool(String, String),
    /// The poll interval is zero.
    ZeroPollInterval,
    /// A directory of definitions other than the usual one is named and is not there.
    ConfigDirMissing(String),
    /// The directory of definitions is no directory.
    ConfigDirNotDirectory(String),
}

/// What looking at the directory of definitions gave.
#[derive(Debug, Clone, Copy, PartialEq, Eq, Structural)]
pub enum DirStatus {
    Missing,
    NotDirectory,
    Directory,
}

/// The values of the variables of the environment that override the settings;
/// none for a variable that is not set.
#[derive(Debug, Clone, PartialEq, Eq)]
pub struct EnvSettings {
    pub log: Option<String>,
    pub config_dir: Option<String>,
    pub startup_awake_time: Option<String>,
    pub minimum_awake_time: Option<String>,
    pub stayup_cleared_awake_time: Option<String>,
    pub poll_variable_interval: Option<String>,
    pub allowed_chassis_types: Option<String>,
    pub test_mode: Option<String>,
    pub test_skip_embedded_defs: Option<String>,
}

/// The text that holds: the given one, or the old one.
pub open spec fn chosen_text(given: Option<String>, old: String) -> Seq<char> {
    match given {
        Some(v) => v@,
        None => old@,
    }
}

/// The number that holds: the one that the given text writes, or the old one;
/// none where the given text writes no number.
pub open spec fn chosen_u64(given: Option<String>, old: u64) -> Option<u64> {
    match given {
        Some(v) => u64_of(v@),
        None => Some(old),
    }
}

/// The truth value that holds: the one that the given text writes, or the old
/// one; none where the given text writes no truth value.
pub open spec fn chosen_bool(given: Option<String>, old: bool) -> Option<bool> {
    match given {
        Some(v) => bool_of(v@),
        None => Some(old),
    }
}

fn choose_u64(given: &Option<String>, old: u64, variable: &str) -> (r: Result<u64, ConfigError>)
    ensures
        match chosen_u64(*given, old) {
            Some(v) => r == Ok::<u64, ConfigError>(v),
            None => r matches Err(ConfigError::InvalidInteger(name, value)) && name@ == variable@
                && Some(value) == *given,
        },
{
    match given {
        Some(text) => match parse_u64(text.as_str()) {
            Some(v) => Ok(v),
            None => Err(ConfigError::InvalidInteger(variable.to_owned(), text.clone())),
        },
        None => Ok(old),
    }
}

fn choose_bool(given: &Option<String>, old: bool, variable: &str) -> (r: Result<bool, ConfigError>)
    ensures
        match chosen_bool(*given, old) {
            Some(v) => r == Ok::<bool, ConfigError>(v),
            None => r matches Err(ConfigError::InvalidBool(name, value)) && name@ == variable@
                && Some(value) == *given,
        },
{
    match given {
        Some(text) => match parse_bool(text.as_str()) {
            Some(v) => Ok(v),
            None => Err(ConfigError::InvalidBool(variable.to_owned(), text.clone())),
        },
        None => Ok(old),
    }
}

/// Every number and truth value of `env` can be read.
pub open spec fn env_readable(cfg: Config, env: EnvSettings) -> bool {
    &&& chosen_u64(env.startup_awake_time, cfg.startup_awake_time) is Some
    &&& chosen_u64(env.minimum_awake_time, cfg.minimum_awake_time) is Some
    &&& chosen_u64(env.stayup_cleared_awake_time, cfg.stayup_cleared_awake_time) is Some
    &&& chosen_u64(env.poll_variable_interval, cfg.poll_variable_interval) is Some
    &&& chosen_bool(env.test_mode, cfg.test_mode) is Some
    &&& chosen_bool(env.test_skip_embedded_defs, cfg.test_skip_embedded_defs) is Some
}

/// The settings with the values of the environment in place of their own. A
/// number or a truth value that cannot be read is refused, and nothing changes.
/// The list of chassis types is split at its commas.
pub fn populate_config_from_env(cfg: &mut Config, env: &EnvSettings) -> (r: Result<(), ConfigError>)
    ensures
        r is Ok <==> env_readable(*old(cfg), *env),
        r is Err ==> *final(cfg) == *old(cfg),
        r matches Err(e) ==> e is InvalidInteger || e is InvalidBool,
        r is Ok ==> {
            &&& final(cfg).log@ == chosen_text(env.log, old(cfg).log)
            &&& final(cfg).config_dir@ == chosen_text(env.config_dir, old(cfg).config_dir)
            &&& Some(final(cfg).startup_awake_time) == chosen_u64(
                env.startup_awake_time,
                old(cfg).startup_awake_time,
            )
            &&& Some(final(cfg).minimum_awake_time) == chosen_u64(
                env.minimum_awake_time,
                old(cfg).minimum_awake_time,
            )
            &&& Some(final(cfg).stayup_cleared_awake_time) == chosen_u64(
                env.stayup_cleared_awake_time,
                old(cfg).stayup_cleared_awake_time,
            )
            &&& Some(final(cfg).poll_variable_interval) == chosen_u64(
                env.poll_variable_interval,
                old(cfg).poll_variable_interval,
            )
            &&& Some(final(cfg).test_mode) == chosen_bool(env.test_mode, old(cfg).test_mode)
            &&& Some(final(cfg).test_skip_embedded_defs) == chosen_bool(
                env.test_skip_embedded_defs,
                old(cfg).test_skip_embedded_defs,
            )
            &&& match env.allowed_chassis_types {
                Some(list) => comma_free(chassis_texts(final(cfg).allowed_chassis_types@))
                    && comma_join(chassis_texts(final(cfg).allowed_chassis_types@)) == list@
                    && final(cfg).allowed_chassis_types@.len() >= 1,
                None => final(cfg).allowed_chassis_types == old(cfg).allowed_chassis_types,
            }
        },
{
    let startup = match choose_u64(
        &env.startup_awake_time,
        cfg.startup_awake_time,
        "WAKETIMED_STARTUP_AWAKE_TIME",
    ) {
        Ok(v) => v,
        Err(e) => {
            return Err(e);
        },
    };
    let minimum = match choose_u64(
        &env.minimum_awake_time,
        cfg.minimum_awake_time,
        "WAKETIMED_MINIMUM_AWAKE_TIME",
    ) {
        Ok(v) => v,
        Err(e) => {
            return Err(e);
        },
    };
    let cleared = match choose_u64(
        &env.stayup_cleared_awake_time,
        cfg.stayup_cleared_awake_time,
        "WAKETIMED_STAYUP_CLEARED_AWAKE_TIME",
    ) {
        Ok(v) => v,
        Err(e) => {
            return Err(e);
        },
    };
    let interval = match choose_u64(
        &env.poll_variable_interval,
        cfg.poll_variable_interval,
        "WAKETIMED_POLL_VARIABLE_INTERVAL",
    ) {
        Ok(v) => v,
        Err(e) => {
            return Err(e);
        },
    };
    let test_mode = match choose_bool(&env.test_mode, cfg.test_mode, "WAKETIMED_TEST_MODE") {
        Ok(v) => v,
        Err(e) => {
            return Err(e);
        },
    };
    let skip = match choose_bool(
        &env.test_skip_embedded_defs,
        cfg.test_skip_embedded_defs,
        "WAKETIMED_TEST_SKIP_EMBEDDED_DEFS",
    ) {
        Ok(v) => v,
        Err(e) => {
            return Err(e);
        },
    };
    if let Some(value) = &env.log {
        cfg.log = value.clone();
    }
    if let Some(value) = &env.config_dir {
        cfg.config_dir = value.clone();
    }
    cfg.startup_awake_time = startup;
    cfg.minimum_awake_time = minimum;
    cfg.stayup_cleared_awake_time = cleared;
    cfg.poll_variable_interval = interval;
    if let Some(value) = &env.allowed_chassis_types {
        cfg.allowed_chassis_types = split_commas(value.as_str());
        assert(chassis_texts(cfg.allowed_chassis_types@) =~= part_texts(
            cfg.allowed_chassis_types@,
        ));
    }
    cfg.test_mode = test_mode;
    cfg.test_skip_embedded_defs = skip;
    Ok(())
}

/// What is wrong with the directory of definitions, if anything: a directory
/// other than the usual one must be there, and be a directory. The usual one and
/// no directory at all are always in order.
pub open spec fn config_dir_fault(cfg: Config, status: DirStatus) -> Option<DirStatus> {
    if cfg.config_dir@ == DEFAULT_CONFIG_DIR@ || cfg.config_dir@.len() == 0 || status
        == DirStatus::Directory {
        None
    } else {
        Some(status)
    }
}

/// Checks the directory of definitions; `status` is what looking at it gave.
pub fn check_config_dir(cfg: &Config, status: DirStatus) -> (r: Result<(), ConfigError>)
    ensures
        match config_dir_fault(*cfg, status) {
            None => r is Ok,
            Some(DirStatus::Missing) => r matches Err(ConfigError::ConfigDirMissing(d)) && d@
                == cfg.config_dir@,
            Some(_) => r matches Err(ConfigError::ConfigDirNotDirectory(d)) && d@
                == cfg.config_dir@,
        },
{
    if str_eq(cfg.config_dir.as_str(), DEFAULT_CONFIG_DIR) {
        return Ok(());
    }
    if cfg.config_dir.as_str().is_empty() {
        return Ok(());
    }
    match status {
        DirStatus::Missing => Err(ConfigError::ConfigDirMissing(cfg.config_dir.clone())),
        DirStatus::NotDirectory => Err(ConfigError::ConfigDirNotDirectory(cfg.config_dir.clone())),
        DirStatus::Directory => Ok(()),
    }
}

/// Checks the settings: the directory of definitions, then the poll interval,
/// which must not be zero. Nothing is repaired so far.
pub fn check_and_repair_config(cfg: &mut Config, status: DirStatus) -> (r: Result<(), ConfigError>)
    ensures
        *final(cfg) == *old(cfg),
        r is Ok <==> config_dir_fault(*old(cfg), status) is None && old(cfg).poll_variable_interval
            != 0,
        config_dir_fault(*old(cfg), status) is None && old(cfg).poll_variable_interval == 0 ==> r
            == Err::<(), ConfigError>(ConfigError::ZeroPollInterval),
        config_dir_fault(*old(cfg), status) is Some ==> (r matches Err(e) && (e is ConfigDirMissing
            || e is ConfigDirNotDirectory)),
{
    match check_config_dir(cfg, status) {
        Ok(()) => {},
        Err(e) => {
            return Err(e);
        },
    }
    if cfg.poll_variable_interval == 0 {
        return Err(ConfigError::ZeroPollInterval);
    }
    Ok(())
}

impl Config {
    /// The settings that hold where nothing is set.
    pub fn from_defaults() -> (cfg: Config)
        ensures
            cfg.log@ == "info"@,
            cfg.config_dir@ == DEFAULT_CONFIG_DIR@,
            cfg.poll_variable_interval == 3_000,
            chassis_texts(cfg.allowed_chassis_types@) == default_chassis_types(),
            cfg.startup_awake_time == 300_000,
            cfg.minimum_awake_time == 10_000,
            cfg.stayup_cleared_awake_time == 10_000,
            !cfg.test_mode,
            !cfg.test_skip_embedded_defs,
    {
        Config {
            log: default_log(),
            config_dir: default_config_dir(),
            poll_variable_interval: default_poll_variable_interval(),
            allowed_chassis_types: default_allowed_chassis_types(),
            startup_awake_time: default_startup_awake_time(),
            minimum_awake_time: default_minimum_awake_time(),
            stayup_cleared_awake_time: default_stayup_cleared_awake_time(),
            test_mode: default_test_mode(),
            test_skip_embedded_defs: default_test_skip_embedded_defs(),
        }
    }

    /// The directory of definitions; none where the setting is empty.
    pub fn config_dir(&self) -> (r: Option<String>)
        ensures
            self.config_dir@.len() == 0 ==> r is None,
            self.config_dir@.len() != 0 ==> (r matches Some(d) && d@ == self.config_dir@),
    {
        if self.config_dir.as_str().is_empty() {
            None
        } else {
            Some(self.config_dir.clone())
        }
    }

    /// The directory of rule definitions in the directory of definitions.
    pub fn config_rule_def_dir(&self) -> (r: Option<String>)
        ensures
            self.config_dir@.len() == 0 ==> r is None,
            self.config_dir@.len() != 0 ==> (r matches Some(d) && d@ == joined(
                self.config_dir@,
                RULE_DEF_DIR@,
            )),
    {
        match self.config_dir() {
            Some(dir) => Some(join(dir.as_str(), RULE_DEF_DIR)),
            None => None,
        }
    }

    /// The directory of variable definitions in the directory of definitions.
    pub fn config_var_def_dir(&self) -> (r: Option<String>)
        ensures
            self.config_dir@.len() == 0 ==> r is None,
            self.config_dir@.len() != 0 ==> (r matches Some(d) && d@ == joined(
                self.config_dir@,
                VAR_DEF_DIR@,
            )),
    {
        match self.config_dir() {
            Some(dir) => Some(join(dir.as_str(), VAR_DEF_DIR)),
            None => None,
        }
    }

    /// The directories of definitions of one kind, lowest precedence first: the
    /// embedded one unless it is left out, then the one in the directory of
    /// definitions if there is one.
    pub open spec fn def_dirs(self, embedded: Seq<char>, inner: Seq<char>) -> Seq<Seq<char>> {
        let first: Seq<Seq<char>> = if self.test_skip_embedded_defs {
            Seq::empty()
        } else {
            seq![embedded]
        };
        if self.config_dir@.len() == 0 {
            first
        } else {
            first.push(joined(self.config_dir@, inner))
        }
    }

    /// The directories of rule definitions, lowest precedence first.
    pub fn rule_def_dirs(&self) -> (dirs: Vec<String>)
        ensures
            chassis_texts(dirs@) == self.def_dirs(PREFIX_RULE_DEF@, RULE_DEF_DIR@),
    {
        let mut dirs: Vec<String> = Vec::new();
        if !self.test_skip_embedded_defs {
            dirs.push(PREFIX_RULE_DEF.to_owned());
        }
        if let Some(dir) = self.config_rule_def_dir() {
            dirs.push(dir);
        }
        assert(chassis_texts(dirs@) =~= self.def_dirs(PREFIX_RULE_DEF@, RULE_DEF_DIR@));
        dirs
    }

    /// The directories of variable definitions, lowest precedence first.
    pub fn var_def_dirs(&self) -> (dirs: Vec<String>)
        ensures
            chassis_texts(dirs@) == self.def_dirs(PREFIX_VAR_DEF@, VAR_DEF_DIR@),
    {
        let mut dirs: Vec<String> = Vec::new();
        if !self.test_skip_embedded_defs {
            dirs.push(PREFIX_VAR_DEF.to_owned());
        }
        if let Some(dir) = self.config_var_def_dir() {
            dirs.push(dir);
        }
        assert(chassis_texts(dirs@) =~= self.def_dirs(PREFIX_VAR_DEF@, VAR_DEF_DIR@));
        dirs
    }
}

} // verus!
