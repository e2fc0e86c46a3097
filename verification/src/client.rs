//! How a frontend finds and starts the backend: the socket and lock paths,
//! the command that launches the backend, and the steps of connecting to a
//! backend that may still have to be started.
use vstd::prelude::*;
use crate::paths::{append_suffix, join, join_spec};

verus! {

/// How many times a frontend tries to connect to a backend it started.
pub const STARTUP_ATTEMPTS: u64 = 50;

/// The pause between two connection attempts, in milliseconds.
pub const STARTUP_RETRY_DELAY_MS: u64 = 100;

/// The name of the backend's socket in its folder.
pub open spec fn socket_name() -> Seq<char> {
    "iron-file-backend.sock"@
}

/// The backend's socket: the configured socket if there is one, else the
/// socket in the runtime folder, else the socket in the temporary folder.
pub open spec fn socket_path_spec(
    configured: Option<Seq<char>>,
    runtime_dir: Option<Seq<char>>,
    temp_dir: Seq<char>,
) -> Seq<char> {
    match configured {
        Some(socket) => socket,
        None => match runtime_dir {
            Some(dir) => join_spec(dir, socket_name()),
            None => join_spec(temp_dir, socket_name()),
        },
    }
}

/// The backend's socket from the values of `IRON_FILE_SOCKET`,
/// `XDG_RUNTIME_DIR` and the temporary folder.
pub fn socket_path_from(configured: Option<String>, runtime_dir: Option<String>, temp_dir: &str) -> (res:
    String)
    ensures
        res@ == socket_path_spec(configured.deep_view(), runtime_dir.deep_view(), temp_dir@),
{
    match configured {
        Some(socket) => socket,
        None => match runtime_dir {
            Some(dir) => join(dir.as_str(), "iron-file-backend.sock"),
            None => join(temp_dir, "iron-file-backend.sock"),
        },
    }
}

/// The lock file that only one running backend holds.
pub fn backend_lock_path(socket: &str) -> (res: String)
    ensures
        res@ == socket@ + ".lock"@,
{
    append_suffix(socket, ".lock")
}

/// The lock file that frontends hold while they start a backend.
pub fn startup_lock_path(socket: &str) -> (res: String)
    ensures
        res@ == socket@ + ".startup.lock"@,
{
    append_suffix(socket, ".startup.lock")
}

/// The command that launches the backend.
#[derive(Debug, Clone, PartialEq, Eq)]
pub enum BackendLaunch {
    /// `cargo` with these arguments, in development.
    Cargo(Vec<String>),
    /// The installed backend binary.
    Binary(String),
}

pub enum BackendLaunchView {
    Cargo(Seq<Seq<char>>),
    Binary(Seq<char>),
}

impl DeepView for BackendLaunch {
    type V = BackendLaunchView;

    open spec fn deep_view(&self) -> BackendLaunchView {
        match self {
            BackendLaunch::Cargo(args) => BackendLaunchView::Cargo(args.deep_view()),
            BackendLaunch::Binary(path) => BackendLaunchView::Binary(path@),
        }
    }
}

pub open spec fn cargo_arguments(manifest: Seq<char>) -> Seq<Seq<char>> {
    seq!["run"@, "--manifest-path"@, manifest, "--package"@, "iron-file-backend"@]
}

pub open spec fn missing_binary_message() -> Seq<char> {
    "IRON_FILE_BACKEND_BIN must point to the backend binary in prod mode"@
}

pub open spec fn unknown_mode_message() -> Seq<char> {
    "IRON_FILE_BACKEND_MODE must be either dev or prod"@
}

/// The launch command for a mode (`dev` when none is set), the backend
/// binary configured for `prod`, and the workspace manifest used in `dev`.
pub open spec fn backend_launch_spec(
    mode: Option<Seq<char>>,
    binary: Option<Seq<char>>,
    manifest: Seq<char>,
) -> Result<BackendLaunchView, Seq<char>> {
    let mode = match mode {
        Some(m) => m,
        None => "dev"@,
    };
    if mode == "dev"@ {
        Ok(BackendLaunchView::Cargo(cargo_arguments(manifest)))
    } else if mode == "prod"@ {
        match binary {
            Some(path) => Ok(BackendLaunchView::Binary(path)),
            None => Err(missing_binary_message()),
        }
    } else {
        Err(unknown_mode_message())
    }
}

fn text(s: &str) -> (res: String)
    ensures
        res@ == s@,
{
    s.to_owned()
}

/// Chooses how the backend is launched from the values of
/// `IRON_FILE_BACKEND_MODE` and `IRON_FILE_BACKEND_BIN`.
pub fn backend_launch(mode: Option<&str>, binary: Option<String>, manifest: &str) -> (res: Result<
    BackendLaunch,
    String,
>)
    ensures
        match backend_launch_spec(
            match mode {
                Some(m) => Some(m@),
                None => None,
            },
            binary.deep_view(),
            manifest@,
        ) {
            Ok(launch) => res matches Ok(l) && l.deep_view() == launch,
            Err(message) => res matches Err(e) && e@ == message,
        },
{
    let mode = match mode {
        Some(m) => m,
        None => "dev",
    };
    if crate::text::str_equal(mode, "dev") {
        let mut args: Vec<String> = Vec::new();
        args.push(text("run"));
        args.push(text("--manifest-path"));
        args.push(text(manifest));
        args.push(text("--package"));
        args.push(text("iron-file-backend"));
        assert(args.deep_view() =~= cargo_arguments(manifest@));
        Ok(BackendLaunch::Cargo(args))
    } else if crate::text::str_equal(mode, "prod") {
        match binary {
            Some(path) => Ok(BackendLaunch::Binary(path)),
            None => Err(text("IRON_FILE_BACKEND_BIN must point to the backend binary in prod mode")),
        }
    } else {
        Err(text("IRON_FILE_BACKEND_MODE must be either dev or prod"))
    }
}

/// Where a frontend is in reaching the backend.
#[derive(Debug, Clone, Copy, PartialEq, Eq)]
pub enum StartupPhase {
    /// Trying a running backend first.
    FirstConnect,
    /// Taking the startup lock.
    Locking,
    /// Waiting before taking the startup lock again.
    LockWaiting,
    /// Trying again once the lock is held: another frontend may have
    /// started the backend meanwhile.
    SecondConnect,
    /// Launching the backend.
    Starting,
    /// Connecting to the started backend after `failures` failed attempts.
    Waiting { failures: u64 },
    /// Pausing after `failures` failed attempts.
    Pausing { failures: u64 },
    /// Connected or given up.
    Finished,
}

/// How the last action went.
#[derive(Debug, Clone, PartialEq, Eq)]
pub enum StartupOutcome {
    Succeeded,
    /// The startup lock is held by another frontend.
    Busy,
    Failed(String),
}

/// What the frontend does next.
#[derive(Debug, Clone, PartialEq, Eq)]
pub enum StartupAction {
    Connect,
    AcquireLock,
    StartBackend,
    Sleep,
    /// Connected: use the connection.
    Ready,
    /// Give up with this message.
    Fail(String),
}

pub enum StartupActionView {
    Connect,
    AcquireLock,
    StartBackend,
    Sleep,
    Ready,
    Fail(Seq<char>),
}

impl DeepView for StartupAction {
    type V = StartupActionView;

    open spec fn deep_view(&self) -> StartupActionView {
        match self {
            StartupAction::Connect => StartupActionView::Connect,
            StartupAction::AcquireLock => StartupActionView::AcquireLock,
            StartupAction::StartBackend => StartupActionView::StartBackend,
            StartupAction::Sleep => StartupActionView::Sleep,
            StartupAction::Ready => StartupActionView::Ready,
            StartupAction::Fail(m) => StartupActionView::Fail(m@),
        }
    }
}

/// The message given when a started backend never answered.
pub open spec fn timeout_message() -> Seq<char> {
    "The backend did not start within "@ + crate::text::radix_digits(
        (STARTUP_ATTEMPTS * STARTUP_RETRY_DELAY_MS) as nat,
        10,
    ) + " ms"@
}

/// The first step: try a running backend.
pub fn startup_begin() -> (res: (StartupPhase, StartupAction))
    ensures
        res.0 == StartupPhase::FirstConnect,
        res.1 == StartupAction::Connect,
{
    (StartupPhase::FirstConnect, StartupAction::Connect)
}

/// One step of reaching the backend: from the phase and how its action
/// went, the next phase and action. `succeeded` is whether the action
/// succeeded, `busy` whether the lock was held elsewhere and `error` the
/// error an action gave.
pub open spec fn startup_step_spec(phase: StartupPhase, succeeded: bool, busy: bool, error: Seq<char>) -> (
    StartupPhase,
    StartupActionView,
) {
    match phase {
        StartupPhase::FirstConnect => if succeeded {
            (StartupPhase::Finished, StartupActionView::Ready)
        } else {
            (StartupPhase::Locking, StartupActionView::AcquireLock)
        },
        StartupPhase::Locking => if succeeded {
            (StartupPhase::SecondConnect, StartupActionView::Connect)
        } else if busy {
            (StartupPhase::LockWaiting, StartupActionView::Sleep)
        } else {
            (StartupPhase::Finished, StartupActionView::Fail(error))
        },
        StartupPhase::LockWaiting => (StartupPhase::Locking, StartupActionView::AcquireLock),
        StartupPhase::SecondConnect => if succeeded {
            (StartupPhase::Finished, StartupActionView::Ready)
        } else {
            (StartupPhase::Starting, StartupActionView::StartBackend)
        },
        StartupPhase::Starting => if succeeded {
            (StartupPhase::Waiting { failures: 0 }, StartupActionView::Connect)
        } else {
            (StartupPhase::Finished, StartupActionView::Fail(error))
        },
        StartupPhase::Waiting { failures } => if succeeded {
            (StartupPhase::Finished, StartupActionView::Ready)
        } else {
            (StartupPhase::Pausing { failures: (failures + 1) as u64 }, StartupActionView::Sleep)
        },
        StartupPhase::Pausing { failures } => if failures < STARTUP_ATTEMPTS {
            (StartupPhase::Waiting { failures }, StartupActionView::Connect)
        } else {
            (StartupPhase::Finished, StartupActionView::Fail(timeout_message()))
        },
        StartupPhase::Finished => (StartupPhase::Finished, StartupActionView::Ready),
    }
}

/// A phase that can be reached: never more failures than attempts.
pub open spec fn startup_phase_wf(phase: StartupPhase) -> bool {
    match phase {
        StartupPhase::Waiting { failures } => failures < STARTUP_ATTEMPTS,
        StartupPhase::Pausing { failures } => 0 < failures <= STARTUP_ATTEMPTS,
        _ => true,
    }
}

fn timeout_text() -> (res: String)
    ensures
        res@ == timeout_message(),
{
    let mut message: Vec<char> = crate::text::chars_of("The backend did not start within ");
    let digits = crate::text::decimal(STARTUP_ATTEMPTS * STARTUP_RETRY_DELAY_MS);
    crate::text::extend_chars(&mut message, &digits);
    crate::text::extend_str(&mut message, " ms");
    crate::text::string_from_chars(&message)
}

/// The next phase and action after the current phase's action went as
/// `outcome`.
pub fn startup_step(phase: StartupPhase, outcome: StartupOutcome) -> (res: (StartupPhase, StartupAction))
    requires
        startup_phase_wf(phase),
    ensures
        ({
            let (next, action) = startup_step_spec(
                phase,
                outcome == StartupOutcome::Succeeded,
                outcome == StartupOutcome::Busy,
                match outcome {
                    StartupOutcome::Failed(e) => e@,
                    _ => Seq::empty(),
                },
            );
            res.0 == next && res.1.deep_view() == action
        }),
{
    let succeeded = match outcome {
        StartupOutcome::Succeeded => true,
        _ => false,
    };
    match phase {
        StartupPhase::FirstConnect => if succeeded {
            (StartupPhase::Finished, StartupAction::Ready)
        } else {
            (StartupPhase::Locking, StartupAction::AcquireLock)
        },
        StartupPhase::Locking => match outcome {
            StartupOutcome::Succeeded => (StartupPhase::SecondConnect, StartupAction::Connect),
            StartupOutcome::Busy => (StartupPhase::LockWaiting, StartupAction::Sleep),
            StartupOutcome::Failed(e) => (StartupPhase::Finished, StartupAction::Fail(e)),
        },
        StartupPhase::LockWaiting => (StartupPhase::Locking, StartupAction::AcquireLock),
        StartupPhase::SecondConnect => if succeeded {
            (StartupPhase::Finished, StartupAction::Ready)
        } else {
            (StartupPhase::Starting, StartupAction::StartBackend)
        },
        StartupPhase::Starting => match outcome {
            StartupOutcome::Succeeded => (StartupPhase::Waiting { failures: 0 }, StartupAction::Connect),
            StartupOutcome::Busy => (StartupPhase::Finished, StartupAction::Fail(String::new())),
            StartupOutcome::Failed(e) => (StartupPhase::Finished, StartupAction::Fail(e)),
        },
        StartupPhase::Waiting { failures } => if succeeded {
            (StartupPhase::Finished, StartupAction::Ready)
        } else {
            (StartupPhase::Pausing { failures: failures + 1 }, StartupAction::Sleep)
        },
        StartupPhase::Pausing { failures } => if failures < STARTUP_ATTEMPTS {
            (StartupPhase::Waiting { failures }, StartupAction::Connect)
        } else {
            (StartupPhase::Finished, StartupAction::Fail(timeout_text()))
        },
        StartupPhase::Finished => (StartupPhase::Finished, StartupAction::Ready),
    }
}

/// A bound on the steps left before the frontend connects or gives up,
/// not counting waits for the startup lock.
pub open spec fn startup_measure(phase: StartupPhase) -> int {
    match phase {
        StartupPhase::FirstConnect => 2 * STARTUP_ATTEMPTS + 7,
        StartupPhase::Locking => 2 * STARTUP_ATTEMPTS + 6,
        StartupPhase::LockWaiting => 2 * STARTUP_ATTEMPTS + 6,
        StartupPhase::SecondConnect => 2 * STARTUP_ATTEMPTS + 5,
        StartupPhase::Starting => 2 * STARTUP_ATTEMPTS + 4,
        StartupPhase::Waiting { failures } => 2 * (STARTUP_ATTEMPTS - failures) + 2,
        StartupPhase::Pausing { failures } => 2 * (STARTUP_ATTEMPTS - failures) + 3,
        StartupPhase::Finished => 0,
    }
}

/// Every step keeps the phase reachable, and, apart from waiting for the
/// startup lock, brings the frontend closer to a connection or an error:
/// a started backend gets at most `STARTUP_ATTEMPTS` connection attempts.
pub proof fn lemma_startup_progress(phase: StartupPhase, succeeded: bool, busy: bool, error: Seq<char>)
    requires
        startup_phase_wf(phase),
        phase != StartupPhase::Finished,
    ensures
        ({
            let (next, _action) = startup_step_spec(phase, succeeded, busy, error);
            &&& startup_phase_wf(next)
            &&& 0 <= startup_measure(next)
            &&& (next == StartupPhase::Finished || startup_measure(next) < startup_measure(phase)
                || (next == StartupPhase::LockWaiting && phase == StartupPhase::Locking)
                || (next == StartupPhase::Locking && phase == StartupPhase::LockWaiting))
        }),
{
}

/// A started backend that never answers gets exactly `STARTUP_ATTEMPTS`
/// connection attempts, each followed by a pause, before the frontend
/// gives up with the timeout message.
pub proof fn lemma_startup_gives_up(failures: u64)
    requires
        failures < STARTUP_ATTEMPTS,
    ensures
        startup_step_spec(StartupPhase::Waiting { failures }, false, false, Seq::empty()) == (
            StartupPhase::Pausing { failures: (failures + 1) as u64 },
            StartupActionView::Sleep,
        ),
        failures + 1 < STARTUP_ATTEMPTS ==> startup_step_spec(
            StartupPhase::Pausing { failures: (failures + 1) as u64 },
            true,
            false,
            Seq::empty(),
        ) == (StartupPhase::Waiting { failures: (failures + 1) as u64 }, StartupActionView::Connect),
        failures + 1 == STARTUP_ATTEMPTS ==> startup_step_spec(
            StartupPhase::Pausing { failures: (failures + 1) as u64 },
            true,
            false,
            Seq::empty(),
        ) == (StartupPhase::Finished, StartupActionView::Fail(timeout_message())),
{
}

/// What a frontend does when copying failed.
#[derive(Debug, Clone, Copy, PartialEq, Eq)]
pub enum CopyFailure {
    /// The backend is older than the frontend: restart it once and copy
    /// again.
    RestartAndRetry,
    /// Report the error.
    Report,
}

/// A backend that does not know the copy request is restarted once; any
/// other failure, or a failure after the restart, is reported.
pub fn copy_failure_action(unknown_request: bool, restarted: bool) -> (res: CopyFailure)
    ensures
        res == (if unknown_request && !restarted {
            CopyFailure::RestartAndRetry
        } else {
            CopyFailure::Report
        }),
{
    if unknown_request && !restarted {
        CopyFailure::RestartAndRetry
    } else {
        CopyFailure::Report
    }
}

} // verus!
