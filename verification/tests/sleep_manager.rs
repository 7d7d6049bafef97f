use waketimed::config::Config;
use waketimed::messages::WorkerMsg;
use waketimed::sleep_manager::SleepManager;
use waketimed::time::{self, ClockError};

fn default_config() -> Config {
    let mut cfg = Config::from_defaults();
    cfg.test_mode = true;
    cfg
}

fn create_sleep_manager(cfg: Config) -> SleepManager {
    SleepManager::new(&cfg)
}

const MS: u128 = 1_000_000;

#[test]
fn test_update() -> Result<(), ClockError> {
    let mut cfg = default_config();
    cfg.startup_awake_time = 50;
    cfg.stayup_cleared_awake_time = 1000;
    cfg.poll_variable_interval = 1000;
    let mut mgr = create_sleep_manager(cfg);
    mgr.init().expect("Failed to init SleepManager.");
    assert!(!mgr.is_suspend_allowed()?);
    let initial_nearest_suspend = mgr.nearest_possible_suspend();
    mgr.update(false)?;
    assert_eq!(initial_nearest_suspend, mgr.nearest_possible_suspend());
    assert!(!mgr.is_suspend_allowed()?);
    mgr.update(true)?;
    assert!(initial_nearest_suspend < mgr.nearest_possible_suspend());
    assert!(!mgr.is_suspend_allowed()?);
    Ok(())
}

#[test]
fn test_suspend() -> Result<(), ClockError> {
    let mut cfg = default_config();
    cfg.startup_awake_time = 0;
    cfg.stayup_cleared_awake_time = 1000;
    cfg.poll_variable_interval = 1000;
    let mut mgr = create_sleep_manager(cfg);
    mgr.init().expect("Failed to init SleepManager.");

    // Initially suspend is not allowed because internal
    // stayup_active is set to true.
    assert!(!mgr.is_suspend_allowed()?);
    assert_eq!(mgr.suspend_if_allowed()?, None);

    // First update() will set stayup_active to false and not
    // increase nearest_possible_suspend. Suspend should be
    // allowed.
    mgr.update(false)?;
    assert!(mgr.is_suspend_allowed()?);
    assert_eq!(mgr.suspend_if_allowed()?, Some(WorkerMsg::Suspend(true)));

    // Second update now sets stayup_active true again. Suspend
    // should not be allowed.
    mgr.update(true)?;
    assert!(!mgr.is_suspend_allowed()?);
    assert_eq!(mgr.suspend_if_allowed()?, None);

    Ok(())
}

#[test]
fn the_clock_moves_forward() {
    let a = time::now().unwrap();
    let b = time::now().unwrap();
    assert!(a > 0);
    assert!(b >= a);
    assert!(b <= time::MAX_CLOCK_NANOS);
}

#[test]
fn fresh_manager_holds_the_system_up() {
    let mgr = create_sleep_manager(default_config());
    assert_eq!(mgr.nearest_possible_suspend(), 0);
    assert!(mgr.is_stayup_active());
    assert!(!mgr.is_suspend_in_progress());
    assert_eq!(mgr.suspend_if_allowed_at(1_000 * MS), None);
}

#[test]
fn init_bumps_by_the_startup_awake_time() {
    let mut cfg = default_config();
    cfg.startup_awake_time = 300_000;
    let mut mgr = create_sleep_manager(cfg);
    mgr.init_at(7 * MS);
    assert_eq!(mgr.nearest_possible_suspend(), 300_007 * MS);
}

#[test]
fn update_bumps_by_cleared_time_and_interval() {
    let mut cfg = default_config();
    cfg.startup_awake_time = 0;
    cfg.stayup_cleared_awake_time = 10_000;
    cfg.poll_variable_interval = 3_000;
    let mut mgr = create_sleep_manager(cfg);
    mgr.init_at(5);
    assert_eq!(mgr.nearest_possible_suspend(), 5);
    mgr.update_at(1_000 * MS, true);
    assert!(mgr.is_stayup_active());
    assert_eq!(mgr.nearest_possible_suspend(), 14_000 * MS);
    // The deadline never moves back.
    mgr.update_at(500 * MS, true);
    assert_eq!(mgr.nearest_possible_suspend(), 14_000 * MS);
    mgr.update_at(2_000 * MS, false);
    assert!(!mgr.is_stayup_active());
    assert_eq!(mgr.nearest_possible_suspend(), 14_000 * MS);
    // The deadline itself is too early: the clock must be past it.
    assert!(!mgr.is_suspend_allowed_at(14_000 * MS));
    assert_eq!(mgr.suspend_if_allowed_at(14_000 * MS), None);
    assert!(mgr.is_suspend_allowed_at(14_000 * MS + 1));
    assert_eq!(
        mgr.suspend_if_allowed_at(14_000 * MS + 1),
        Some(WorkerMsg::Suspend(true))
    );
}

#[test]
fn large_times_do_not_overflow() {
    let mut cfg = default_config();
    cfg.startup_awake_time = u64::MAX;
    cfg.stayup_cleared_awake_time = u64::MAX;
    cfg.poll_variable_interval = u64::MAX;
    let mut mgr = create_sleep_manager(cfg);
    mgr.init_at(time::MAX_CLOCK_NANOS);
    assert_eq!(
        mgr.nearest_possible_suspend(),
        time::MAX_CLOCK_NANOS + (u64::MAX as u128) * MS
    );
    mgr.update_at(time::MAX_CLOCK_NANOS, true);
    assert_eq!(
        mgr.nearest_possible_suspend(),
        time::MAX_CLOCK_NANOS + 2 * (u64::MAX as u128) * MS
    );
}

#[test]
fn scenario_suspend_lifecycle() {
    let mut cfg = default_config();
    cfg.test_mode = false;
    cfg.startup_awake_time = 0;
    cfg.minimum_awake_time = 10_000;
    let mut mgr = create_sleep_manager(cfg);
    mgr.init_at(0);
    mgr.update_at(100 * MS, false);
    assert_eq!(
        mgr.suspend_if_allowed_at(100 * MS),
        Some(WorkerMsg::Suspend(false))
    );
    // Asking does not mark the suspend as under way: the system says so.
    assert!(!mgr.is_suspend_in_progress());
    mgr.handle_system_is_suspending();
    assert!(mgr.is_suspend_in_progress());
    assert_eq!(mgr.suspend_if_allowed_at(200 * MS), None);
    let before = mgr.nearest_possible_suspend();
    mgr.handle_system_is_resuming_at(5_000 * MS);
    assert!(!mgr.is_suspend_in_progress());
    assert_eq!(mgr.nearest_possible_suspend(), 15_000 * MS);
    assert!(mgr.nearest_possible_suspend() >= before + 10_000 * MS);
    assert_eq!(mgr.suspend_if_allowed_at(15_000 * MS), None);
    assert_eq!(
        mgr.suspend_if_allowed_at(15_000 * MS + 1),
        Some(WorkerMsg::Suspend(false))
    );
}

#[test]
fn status_counts_whole_milliseconds() {
    let mut cfg = default_config();
    cfg.startup_awake_time = 2_000;
    let mut mgr = create_sleep_manager(cfg);
    mgr.init_at(0);
    assert_eq!(mgr.status_at(0), (2_000, true));
    assert_eq!(mgr.status_at(500 * MS + 1), (1_499, true));
    assert_eq!(mgr.status_at(2_000 * MS), (0, true));
    assert_eq!(mgr.status_at(9_000 * MS), (0, true));
    mgr.update_at(0, false);
    assert_eq!(mgr.status_at(0), (2_000, false));
    assert_eq!(time::millis_until(0, u128::MAX), u64::MAX);
    assert_eq!(time::after_millis(5, 2), 2_000_005);
    assert_eq!(time::after_millis_sum(5, 2, 3), 5_000_005);
}

#[test]
fn resume_with_the_real_clock() {
    let mut cfg = default_config();
    cfg.minimum_awake_time = 60_000;
    let mut mgr = create_sleep_manager(cfg);
    mgr.handle_system_is_suspending();
    let before = time::now().unwrap();
    mgr.handle_system_is_resuming().unwrap();
    assert!(!mgr.is_suspend_in_progress());
    assert!(mgr.nearest_possible_suspend() >= before + 60_000 * MS);
}

#[test]
fn no_suspend_is_due_while_held_up_whatever_the_clock() {
    let mut mgr = create_sleep_manager(default_config());
    // A stayup rule is true: the answer needs no clock.
    assert_eq!(mgr.is_suspend_allowed(), Ok(false));
    assert_eq!(mgr.suspend_if_allowed(), Ok(None));
    // That no rule is true is recorded without the clock, and the deadline stays.
    assert_eq!(mgr.update(false), Ok(()));
    assert!(!mgr.is_stayup_active());
    assert_eq!(mgr.nearest_possible_suspend(), 0);
    mgr.handle_system_is_suspending();
    assert_eq!(mgr.suspend_if_allowed(), Ok(None));
}

#[test]
fn recording_the_flag_leaves_the_deadline() {
    let mut mgr = create_sleep_manager(default_config());
    mgr.init_at(5 * MS);
    let deadline = mgr.nearest_possible_suspend();
    mgr.record_stayup(false);
    assert!(!mgr.is_stayup_active());
    assert_eq!(mgr.nearest_possible_suspend(), deadline);
    mgr.record_stayup(true);
    assert!(mgr.is_stayup_active());
    assert_eq!(mgr.nearest_possible_suspend(), deadline);
}
