//! The built-in probes, as far as they decide anything without the system.

pub mod login_seat_busy;
pub mod login_session_busy;
pub mod modem_voice_call_present;
pub mod sleep_block_inhibited;
pub mod test_const_bool;
pub mod test_inactive;
pub mod test_poll_bool;
