use iron_file::{worker_step, BackendEvent, GuiEvent, WorkerAction};

#[test]
fn a_button_press_is_answered_with_a_status() {
    assert_eq!(
        worker_step(Some(GuiEvent::ButtonPressed), "noon"),
        WorkerAction::Send(BackendEvent::Status(
            "Background worker received the button press at noon".to_string()
        ))
    );
}

#[test]
fn the_worker_stops_when_the_gui_hangs_up() {
    assert_eq!(worker_step(None, "noon"), WorkerAction::Stop);
}

#[test]
fn a_run_sends_one_status_per_press_in_order_then_stops() {
    let received = [
        Some(GuiEvent::ButtonPressed),
        Some(GuiEvent::ButtonPressed),
        None,
        Some(GuiEvent::ButtonPressed),
    ];
    let times = ["one", "two", "three", "four"];
    let mut sent = Vec::new();
    for (event, time) in received.into_iter().zip(times) {
        match worker_step(event, time) {
            WorkerAction::Send(BackendEvent::Status(status)) => sent.push(status),
            WorkerAction::Stop => break,
        }
    }
    assert_eq!(
        sent,
        vec![
            "Background worker received the button press at one".to_string(),
            "Background worker received the button press at two".to_string(),
        ]
    );
}
