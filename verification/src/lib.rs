//! Decision core of a suspend daemon: stayup rules are evaluated over a map of
//! named variables, and the device may be suspended only once every rule is
//! false and the earliest-possible-suspend deadline has passed.

pub mod categories;
pub mod chassis_check;
pub mod config;
pub mod embedded_files;
pub mod engine;
pub mod files;
pub mod grammar;
pub mod messages;
pub mod params;
pub mod parse;
pub mod paths;
pub mod precedence;
pub mod rule_manager;
pub mod rules;
pub mod script;
pub mod sleep_manager;
pub mod text;
pub mod text_map;
pub mod text_set;
pub mod time;
pub mod var_fns;
pub mod var_manager;
pub mod vars;
pub mod vecs;
pub mod worker;
