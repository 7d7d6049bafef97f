//! Variables: their names, values and definitions.

pub mod def;
pub mod error;
pub mod name;
pub mod params;
pub mod value;

pub use def::{BuiltinPollDef, CategoryAnyDef, VarDataType, VarDef, VarKind};
pub use error::{VarError, VarNameError};
pub use name::VarName;
pub use params::{param_required, param_required_value};
pub use value::VarValue;
