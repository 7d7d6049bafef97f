//! What the worker decides: how it answers the calls of the engine, and what it
//! makes of the signals of the system.

pub mod sleep_worker;
pub mod var_worker;

pub use sleep_worker::{handle_suspend, process_prepare_for_sleep, SuspendAction};
pub use var_worker::VarWorker;
