use iron_file::client::{
    backend_launch, backend_lock_path, copy_failure_action, socket_path_from, startup_begin,
    startup_lock_path, startup_step, BackendLaunch, CopyFailure, StartupAction, StartupOutcome,
    StartupPhase, STARTUP_ATTEMPTS,
};

#[test]
fn the_socket_comes_from_the_environment_then_the_runtime_folder() {
    assert_eq!(
        socket_path_from(Some("/run/custom.sock".into()), Some("/run/user/1000".into()), "/tmp"),
        "/run/custom.sock"
    );
    assert_eq!(
        socket_path_from(None, Some("/run/user/1000".into()), "/tmp"),
        "/run/user/1000/iron-file-backend.sock"
    );
    assert_eq!(
        socket_path_from(None, None, "/tmp"),
        "/tmp/iron-file-backend.sock"
    );
}

#[test]
fn lock_files_sit_beside_the_socket() {
    assert_eq!(backend_lock_path("/tmp/b.sock"), "/tmp/b.sock.lock");
    assert_eq!(startup_lock_path("/tmp/b.sock"), "/tmp/b.sock.startup.lock");
}

#[test]
fn the_backend_runs_through_cargo_in_development() {
    let expected = BackendLaunch::Cargo(
        ["run", "--manifest-path", "/src/Cargo.toml", "--package", "iron-file-backend"]
            .iter()
            .map(|value| value.to_string())
            .collect(),
    );
    assert_eq!(backend_launch(None, None, "/src/Cargo.toml"), Ok(expected.clone()));
    assert_eq!(backend_launch(Some("dev"), None, "/src/Cargo.toml"), Ok(expected));
}

#[test]
fn production_needs_the_backend_binary() {
    assert_eq!(
        backend_launch(Some("prod"), Some("/usr/bin/backend".into()), "/src/Cargo.toml"),
        Ok(BackendLaunch::Binary("/usr/bin/backend".into()))
    );
    assert_eq!(
        backend_launch(Some("prod"), None, "/src/Cargo.toml"),
        Err("IRON_FILE_BACKEND_BIN must point to the backend binary in prod mode".into())
    );
    assert_eq!(
        backend_launch(Some("test"), None, "/src/Cargo.toml"),
        Err("IRON_FILE_BACKEND_MODE must be either dev or prod".into())
    );
}

#[test]
fn a_running_backend_is_used_at_once() {
    let (phase, action) = startup_begin();
    assert_eq!(action, StartupAction::Connect);
    let (phase, action) = startup_step(phase, StartupOutcome::Succeeded);
    assert_eq!((phase, action), (StartupPhase::Finished, StartupAction::Ready));
}

#[test]
fn a_missing_backend_is_started_under_the_startup_lock() {
    let (phase, _) = startup_begin();
    let (phase, action) = startup_step(phase, StartupOutcome::Failed("refused".into()));
    assert_eq!(action, StartupAction::AcquireLock);
    let (phase, action) = startup_step(phase, StartupOutcome::Busy);
    assert_eq!(action, StartupAction::Sleep);
    let (phase, action) = startup_step(phase, StartupOutcome::Succeeded);
    assert_eq!(action, StartupAction::AcquireLock);
    let (phase, action) = startup_step(phase, StartupOutcome::Succeeded);
    assert_eq!(action, StartupAction::Connect);
    let (phase, action) = startup_step(phase, StartupOutcome::Failed("refused".into()));
    assert_eq!(action, StartupAction::StartBackend);
    let (phase, action) = startup_step(phase, StartupOutcome::Succeeded);
    assert_eq!(action, StartupAction::Connect);
    let (phase, action) = startup_step(phase, StartupOutcome::Succeeded);
    assert_eq!((phase, action), (StartupPhase::Finished, StartupAction::Ready));
}

#[test]
fn a_started_backend_that_never_answers_times_out() {
    let mut phase = StartupPhase::Waiting { failures: 0 };
    let mut attempts = 1;
    loop {
        let (next, action) = startup_step(phase, StartupOutcome::Failed("refused".into()));
        assert_eq!(action, StartupAction::Sleep);
        let (next, action) = startup_step(next, StartupOutcome::Succeeded);
        phase = next;
        match action {
            StartupAction::Connect => attempts += 1,
            StartupAction::Fail(message) => {
                assert_eq!(message, "The backend did not start within 5000 ms");
                break;
            }
            other => panic!("unexpected action {other:?}"),
        }
    }
    assert_eq!(attempts, STARTUP_ATTEMPTS);
    assert_eq!(phase, StartupPhase::Finished);
}

#[test]
fn lock_and_launch_errors_are_reported() {
    assert_eq!(
        startup_step(StartupPhase::Locking, StartupOutcome::Failed("denied".into())),
        (StartupPhase::Finished, StartupAction::Fail("denied".into()))
    );
    assert_eq!(
        startup_step(StartupPhase::Starting, StartupOutcome::Failed("no cargo".into())),
        (StartupPhase::Finished, StartupAction::Fail("no cargo".into()))
    );
}

#[test]
fn an_outdated_backend_is_restarted_once_for_copying() {
    assert_eq!(copy_failure_action(true, false), CopyFailure::RestartAndRetry);
    assert_eq!(copy_failure_action(true, true), CopyFailure::Report);
    assert_eq!(copy_failure_action(false, false), CopyFailure::Report);
}
