use wave_proxy::supervisor::{
    deadline_from, poll_due, BeginOutcome, Phase, PollReport, ProcessHandle, StartupError,
    Supervisor, POLL_INTERVAL_MS, STARTUP_TIMEOUT_MS,
};

fn run_successful_startup(sup: &mut Supervisor, pid: u64, unhealthy_polls: usize) {
    match sup.begin_startup() {
        BeginOutcome::Proceed { .. } => {}
        BeginOutcome::AlreadyReady => panic!("expected a startup run"),
    }
    sup.on_executable_check("./backend/dist/main", true)
        .expect("executable present");
    sup.on_spawn_result(Ok(ProcessHandle { pid }))
        .expect("spawn reported ok");
    for _ in 0..unhealthy_polls {
        assert!(matches!(sup.on_poll(false), PollReport::Retry));
    }
    assert!(matches!(sup.on_poll(true), PollReport::Ready));
}

#[test]
fn happy_startup_spawns_once_and_becomes_ready() {
    let mut sup = Supervisor::new();
    assert!(!sup.is_ready());
    assert_eq!(sup.spawn_count, 0);
    run_successful_startup(&mut sup, 42, 3);
    assert!(sup.is_ready());
    assert_eq!(sup.phase, Phase::Steady);
    assert_eq!(sup.handle, Some(ProcessHandle { pid: 42 }));
    assert_eq!(sup.spawn_count, 1);
}

#[test]
fn second_ensure_ready_does_no_work() {
    let mut sup = Supervisor::new();
    run_successful_startup(&mut sup, 7, 0);
    // The fast path answers without any transition.
    assert!(sup.is_ready());
    // A caller that still takes the lock re-checks and backs off unchanged.
    match sup.begin_startup() {
        BeginOutcome::AlreadyReady => {}
        BeginOutcome::Proceed { .. } => panic!("a ready supervisor must not restart"),
    }
    assert_eq!(sup.spawn_count, 1);
    assert_eq!(sup.handle, Some(ProcessHandle { pid: 7 }));
    assert!(sup.is_ready());
}

#[test]
fn missing_executable_fails_without_spawn() {
    let mut sup = Supervisor::new();
    let stale = match sup.begin_startup() {
        BeginOutcome::Proceed { stale } => stale,
        BeginOutcome::AlreadyReady => panic!("fresh supervisor cannot be ready"),
    };
    assert_eq!(stale, None);
    let err = sup
        .on_executable_check("./backend/dist/main", false)
        .expect_err("missing executable must fail");
    match &err {
        StartupError::BackendMissing { path } => assert_eq!(path, "./backend/dist/main"),
        other => panic!("wrong error: {other:?}"),
    }
    assert_eq!(
        err.message(),
        "go binary not found at ./backend/dist/main"
    );
    assert_eq!(sup.spawn_count, 0);
    assert_eq!(sup.handle, None);
    assert!(!sup.is_ready());
    assert_eq!(sup.phase, Phase::Steady);
}

#[test]
fn spawn_failure_surfaces_spawn_failed() {
    let mut sup = Supervisor::new();
    sup.begin_startup();
    sup.on_executable_check("./backend/dist/main", true).unwrap();
    let err = sup
        .on_spawn_result(Err(String::from("permission denied")))
        .expect_err("spawn failure must fail");
    match &err {
        StartupError::SpawnFailed { detail } => assert_eq!(detail, "permission denied"),
        other => panic!("wrong error: {other:?}"),
    }
    assert_eq!(err.message(), "spawn failed: permission denied");
    assert_eq!(sup.spawn_count, 0);
    assert_eq!(sup.handle, None);
    assert!(!sup.is_ready());
}

#[test]
fn deadline_empties_slot_and_times_out() {
    let mut sup = Supervisor::new();
    sup.begin_startup();
    sup.on_executable_check("./backend/dist/main", true).unwrap();
    sup.on_spawn_result(Ok(ProcessHandle { pid: 9 })).unwrap();
    assert!(matches!(sup.on_poll(false), PollReport::Retry));
    assert!(matches!(sup.on_poll(false), PollReport::Retry));
    let (stale, err) = sup.on_deadline();
    assert_eq!(stale, Some(ProcessHandle { pid: 9 }));
    assert!(matches!(err, StartupError::HealthcheckTimeout));
    assert_eq!(err.message(), "health check timed out");
    // By the time the attempt returns, the slot is empty and readiness unset.
    assert_eq!(sup.handle, None);
    assert!(!sup.is_ready());
    assert_eq!(sup.phase, Phase::Steady);
    assert_eq!(sup.spawn_count, 1);
}

#[test]
fn mark_unready_forces_full_restart() {
    let mut sup = Supervisor::new();
    run_successful_startup(&mut sup, 11, 0);
    // Mid-traffic failure: readiness drops, the dead process stays tracked.
    sup.mark_unready();
    assert!(!sup.is_ready());
    assert_eq!(sup.handle, Some(ProcessHandle { pid: 11 }));
    // The next caller's startup run first hands back the stale handle.
    let stale = match sup.begin_startup() {
        BeginOutcome::Proceed { stale } => stale,
        BeginOutcome::AlreadyReady => panic!("unready supervisor must restart"),
    };
    assert_eq!(stale, Some(ProcessHandle { pid: 11 }));
    sup.on_executable_check("./backend/dist/main", true).unwrap();
    sup.on_spawn_result(Ok(ProcessHandle { pid: 12 })).unwrap();
    assert!(matches!(sup.on_poll(true), PollReport::Ready));
    assert!(sup.is_ready());
    assert_eq!(sup.handle, Some(ProcessHandle { pid: 12 }));
    assert_eq!(sup.spawn_count, 2);
}

#[test]
fn kill_child_is_idempotent() {
    let mut sup = Supervisor::new();
    run_successful_startup(&mut sup, 5, 1);
    assert_eq!(sup.kill_child(), Some(ProcessHandle { pid: 5 }));
    assert_eq!(sup.handle, None);
    assert!(!sup.is_ready());
    // Safe to call again with nothing tracked.
    assert_eq!(sup.kill_child(), None);
    assert_eq!(sup.handle, None);
}

#[test]
fn teardown_mid_startup_aborts_the_run() {
    // A shutdown signal arrives during the health-poll window: teardown runs
    // in any phase, hands back the just-spawned process, and the in-flight
    // run's next report observes the reset instead of touching the machine.
    let mut sup = Supervisor::new();
    sup.begin_startup();
    sup.on_executable_check("./backend/dist/main", true).unwrap();
    sup.on_spawn_result(Ok(ProcessHandle { pid: 21 })).unwrap();
    assert!(matches!(sup.on_poll(false), PollReport::Retry));
    // The signal task tears down while the initializer awaits its probe.
    assert_eq!(sup.kill_child(), Some(ProcessHandle { pid: 21 }));
    assert_eq!(sup.handle, None);
    assert_eq!(sup.phase, Phase::Steady);
    assert!(!sup.is_ready());
    // The initializer's next report: abandoned, nothing changed.
    assert!(matches!(sup.on_poll(true), PollReport::TornDown));
    assert_eq!(sup.handle, None);
    assert!(!sup.is_ready());
    // Likewise if the run would have hit its deadline instead.
    let (stale, err) = sup.on_deadline();
    assert_eq!(stale, None);
    assert!(matches!(err, StartupError::HealthcheckTimeout));
    assert_eq!(sup.phase, Phase::Steady);
    assert_eq!(sup.spawn_count, 1);
}

#[test]
fn teardown_mid_spawned_phase_recovers_the_handle() {
    // Teardown between the spawn report and the first probe.
    let mut sup = Supervisor::new();
    sup.begin_startup();
    sup.on_executable_check("./backend/dist/main", true).unwrap();
    sup.on_spawn_result(Ok(ProcessHandle { pid: 33 })).unwrap();
    assert_eq!(sup.kill_child(), Some(ProcessHandle { pid: 33 }));
    assert_eq!(sup.phase, Phase::Steady);
    // A later request starts cleanly from the reset state.
    match sup.begin_startup() {
        BeginOutcome::Proceed { stale } => assert_eq!(stale, None),
        BeginOutcome::AlreadyReady => panic!("torn-down supervisor cannot be ready"),
    }
    sup.on_executable_check("./backend/dist/main", true).unwrap();
    sup.on_spawn_result(Ok(ProcessHandle { pid: 34 })).unwrap();
    assert!(matches!(sup.on_poll(true), PollReport::Ready));
    assert!(sup.is_ready());
    assert_eq!(sup.spawn_count, 2);
}

#[test]
fn deadline_and_poll_interval_constants() {
    assert_eq!(STARTUP_TIMEOUT_MS, 10_000);
    assert_eq!(POLL_INTERVAL_MS, 25);
    assert_eq!(deadline_from(1_000), 11_000);
    assert!(poll_due(10_999, 11_000));
    assert!(!poll_due(11_000, 11_000));
    assert!(!poll_due(11_001, 11_000));
}
