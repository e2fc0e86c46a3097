//! Verified core of the Iron File file browser.
use vstd::prelude::*;

pub mod text;
pub mod paths;
pub mod config;
pub mod sorting;
pub mod browser;
pub mod portal;
pub mod service;
pub mod client;
pub mod system;
pub mod preferences;
pub mod commands;
pub mod edits;

verus! {

/// Events sent from a GUI implementation to the shared background worker.
#[derive(Debug, Clone, Copy, PartialEq, Eq)]
pub enum GuiEvent {
    ButtonPressed,
}

/// Updates sent from the shared background worker to a GUI implementation.
#[derive(Debug, Clone, PartialEq, Eq)]
pub enum BackendEvent {
    Status(String),
}

/// What the background worker does next.
#[derive(Debug, Clone, PartialEq, Eq)]
pub enum WorkerAction {
    /// Send this update to the GUI.
    Send(BackendEvent),
    /// Stop working.
    Stop,
}

/// The status the worker reports for a button press at a time.
pub open spec fn press_status(time: Seq<char>) -> Seq<char> {
    "Background worker received the button press at "@ + time
}

/// What the worker sends for what it received: a status for a press, and
/// nothing (it stops) once the GUI hung up.
pub open spec fn step_status(received: Option<GuiEvent>, time: Seq<char>) -> Option<Seq<char>> {
    match received {
        Some(GuiEvent::ButtonPressed) => Some(press_status(time)),
        None => None,
    }
}

/// The statuses a run of the worker sends, given what it receives in
/// order, the time of each receipt, and whether each send reached the GUI:
/// one per press, until the GUI hangs up or a send fails.
pub open spec fn worker_run(
    received: Seq<Option<GuiEvent>>,
    times: Seq<Seq<char>>,
    delivered: Seq<bool>,
) -> Seq<Seq<char>>
    decreases received.len(),
{
    if received.len() == 0 || times.len() == 0 || delivered.len() == 0 {
        Seq::empty()
    } else {
        match step_status(received[0], times[0]) {
            None => Seq::empty(),
            Some(status) => seq![status] + if delivered[0] {
                worker_run(received.drop_first(), times.drop_first(), delivered.drop_first())
            } else {
                Seq::empty()
            },
        }
    }
}

/// A worker that receives `n` presses and then finds that the GUI hung up
/// sends exactly `n` statuses, one per press and in order, when each send
/// reaches the GUI; when the GUI stops listening, it sends nothing after
/// the first failed send.
pub proof fn lemma_worker_run(
    received: Seq<Option<GuiEvent>>,
    times: Seq<Seq<char>>,
    delivered: Seq<bool>,
    n: nat,
)
    requires
        n < received.len(),
        n < times.len(),
        n < delivered.len(),
        forall|i: int| 0 <= i < n ==> received[i] == Some(GuiEvent::ButtonPressed),
        received[n as int] is None,
    ensures
        (forall|i: int| 0 <= i < n ==> delivered[i]) ==> worker_run(received, times, delivered)
            == Seq::new(n, |i: int| press_status(times[i])),
        n > 0 && !delivered[0] ==> worker_run(received, times, delivered) == seq![
            press_status(times[0]),
        ],
    decreases n,
{
    if n > 0 {
        let rest = worker_run(received.drop_first(), times.drop_first(), delivered.drop_first());
        lemma_worker_run(received.drop_first(), times.drop_first(), delivered.drop_first(), (n - 1) as nat);
        assert(received[0] == Some(GuiEvent::ButtonPressed));
        if forall|i: int| 0 <= i < n ==> delivered[i] {
            assert(delivered[0]);
            assert forall|i: int| 0 <= i < n - 1 implies delivered.drop_first()[i] by {
                assert(delivered[i + 1]);
            }
            assert(worker_run(received, times, delivered) =~= Seq::new(n, |i: int| press_status(times[i])));
        }
        if !delivered[0] {
            assert(worker_run(received, times, delivered) =~= seq![press_status(times[0])]);
        }
    } else {
        assert(worker_run(received, times, delivered) =~= Seq::new(n, |i: int| press_status(times[i])));
    }
}

/// The worker's answer to what it received from the GUI: a status for a
/// button press (stamped with `time`), and a stop once the GUI hung up
/// (`None`).
pub fn worker_step(received: Option<GuiEvent>, time: &str) -> (res: WorkerAction)
    ensures
        match res {
            WorkerAction::Send(BackendEvent::Status(s)) => step_status(received, time@) == Some(s@),
            WorkerAction::Stop => step_status(received, time@) is None,
        },
        match received {
            Some(GuiEvent::ButtonPressed) => res matches WorkerAction::Send(BackendEvent::Status(s))
                && s@ == press_status(time@),
            None => res == WorkerAction::Stop,
        },
{
    match received {
        Some(GuiEvent::ButtonPressed) => {
            let mut status: Vec<char> = text::chars_of(
                "Background worker received the button press at ",
            );
            text::extend_str(&mut status, time);
            WorkerAction::Send(BackendEvent::Status(text::string_from_chars(&status)))
        },
        None => WorkerAction::Stop,
    }
}

} // verus!
