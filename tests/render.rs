use gradtop::{Action, Event, Message, Phase, RenderLoop};

fn send_values(l: &mut RenderLoop<f64>, vals: &[f64]) {
    for v in vals {
        assert_eq!(l.handle(Event::Received(Message::Value(*v))), Action::Receive);
    }
}

#[test]
fn steady_cycle_drains_draws_and_polls() {
    let mut l: RenderLoop<f64> = RenderLoop::new();
    assert_eq!(l.phase(), Phase::Running);
    send_values(&mut l, &[1.5]);
    assert_eq!(l.handle(Event::Drained), Action::Draw);
    assert_eq!(l.handle(Event::Drawn), Action::Poll);
    assert_eq!(l.handle(Event::Quiet), Action::Receive);
    assert_eq!(l.phase(), Phase::Running);
    assert_eq!(l.window().samples().to_vec(), vec![(0, 1.5)]);
}

#[test]
fn values_before_first_drain_keep_send_order() {
    let mut l = RenderLoop::new();
    send_values(&mut l, &[3.0, 2.0, 1.0]);
    assert_eq!(l.handle(Event::Drained), Action::Draw);
    assert_eq!(l.window().samples().to_vec(), vec![(0, 3.0), (1, 2.0), (2, 1.0)]);
}

#[test]
fn shutdown_with_no_activity_restores_once_and_exits() {
    let mut l: RenderLoop<f64> = RenderLoop::new();
    assert_eq!(l.handle(Event::Received(Message::Shutdown)), Action::Restore);
    assert_eq!(l.phase(), Phase::ShuttingDown);
    assert_eq!(l.handle(Event::Restored), Action::Exit);
    assert_eq!(l.phase(), Phase::Terminated);
    assert!(l.window().samples().is_empty());
}

#[test]
fn key_press_begins_shutdown() {
    let mut l: RenderLoop<f64> = RenderLoop::new();
    assert_eq!(l.handle(Event::Drained), Action::Draw);
    assert_eq!(l.handle(Event::Drawn), Action::Poll);
    assert_eq!(l.handle(Event::KeyPressed), Action::Restore);
    assert_eq!(l.phase(), Phase::ShuttingDown);
}

#[test]
fn failure_still_restores_the_terminal() {
    let mut l: RenderLoop<f64> = RenderLoop::new();
    assert_eq!(l.handle(Event::Drained), Action::Draw);
    assert_eq!(l.handle(Event::Failed), Action::Restore);
    assert_eq!(l.handle(Event::Restored), Action::Exit);
    assert_eq!(l.phase(), Phase::Terminated);
}

#[test]
fn shutdown_after_key_press_exit_does_not_restore_again() {
    let mut l: RenderLoop<f64> = RenderLoop::new();
    assert_eq!(l.handle(Event::KeyPressed), Action::Restore);
    assert_eq!(l.handle(Event::Restored), Action::Exit);
    assert_eq!(l.handle(Event::Received(Message::Shutdown)), Action::Exit);
    assert_eq!(l.handle(Event::KeyPressed), Action::Exit);
    assert_eq!(l.phase(), Phase::Terminated);
}

#[test]
fn values_sent_before_shutdown_are_all_in_the_window() {
    let vals: Vec<f64> = (0..30).map(|i| i as f64 / 4.0).collect();
    let mut l = RenderLoop::new();
    send_values(&mut l, &vals);
    assert_eq!(l.handle(Event::Received(Message::Shutdown)), Action::Restore);
    let expected: Vec<(u64, f64)> = vals.iter().enumerate().map(|(i, v)| (i as u64, *v)).collect();
    assert_eq!(l.window().samples().to_vec(), expected);
}

#[test]
fn values_after_shutdown_are_not_accepted() {
    let mut l = RenderLoop::new();
    send_values(&mut l, &[0.25, 0.5]);
    assert_eq!(l.handle(Event::Received(Message::Shutdown)), Action::Restore);
    assert_eq!(l.handle(Event::Received(Message::Value(9.0))), Action::Exit);
    assert_eq!(l.window().samples().to_vec(), vec![(0, 0.25), (1, 0.5)]);
    assert_eq!(l.window().next_step(), 2);
}

#[test]
fn window_of_running_loop_keeps_last_thirty() {
    let vals: Vec<f64> = (0..35).map(|i| i as f64).collect();
    let mut l = RenderLoop::new();
    send_values(&mut l, &vals);
    assert_eq!(l.window().step_bounds(), (5, 34));
    assert_eq!(l.window().samples().len(), 30);
}
