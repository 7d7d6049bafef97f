//! Rules: their names and definitions.

pub mod def;
pub mod error;
pub mod name;
pub mod params;

pub use def::{RuleDef, RuleKind, StayupBoolDef};
pub use error::{RuleError, RuleNameError};
pub use name::RuleName;
pub use params::{param_required, param_required_value};
