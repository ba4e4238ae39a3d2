use snap_tap::axis::AxisPair;
use snap_tap::event_loop::{EventLoop, LoopDecision, LoopState, PollOutcome};
use snap_tap::events::{EmittedAction, KeyTransition, SourceEvent, Transition};
use snap_tap::keyboard::{is_likely_keyboard, KEY_A, KEY_D, KEY_S, KEY_SPACE, KEY_W, KEY_Z};
use snap_tap::resolver::AxisResolver;

fn fresh_loop() -> EventLoop {
    EventLoop::new(AxisResolver::new(AxisPair::new(KEY_A, KEY_D), AxisPair::new(KEY_W, KEY_S)))
}

fn key(code: u16, transition: Transition) -> SourceEvent {
    SourceEvent::Key(KeyTransition { code, transition })
}

#[test]
fn loop_starts_running() {
    let lp = fresh_loop();
    assert_eq!(lp.state, LoopState::Running);
}

#[test]
fn cancellation_moves_to_cancelling_then_stopped() {
    let mut lp = fresh_loop();
    let proceed = lp.observe_cancellation(false);
    assert!(proceed);
    assert_eq!(lp.state, LoopState::Running);
    let proceed = lp.observe_cancellation(true);
    assert!(!proceed);
    assert_eq!(lp.state, LoopState::Cancelling);
    lp.complete_shutdown();
    assert_eq!(lp.state, LoopState::Stopped);
}

#[test]
fn wait_outcomes_map_to_decisions() {
    let mut lp = fresh_loop();
    assert_eq!(lp.after_wait(PollOutcome::Ready), LoopDecision::Drain);
    assert_eq!(lp.state, LoopState::Running);
    assert_eq!(lp.after_wait(PollOutcome::TimedOut), LoopDecision::Idle);
    assert_eq!(lp.state, LoopState::Running);
    assert_eq!(lp.after_wait(PollOutcome::Interrupted), LoopDecision::Idle);
    assert_eq!(lp.state, LoopState::Running);
    assert_eq!(lp.after_wait(PollOutcome::NotReadable), LoopDecision::Idle);
    assert_eq!(lp.state, LoopState::Running);
}

#[test]
fn failed_wait_is_fatal() {
    let mut lp = fresh_loop();
    assert_eq!(lp.after_wait(PollOutcome::Failed), LoopDecision::Abort);
    assert_eq!(lp.state, LoopState::Stopped);
}

#[test]
fn batch_preserves_per_event_order() {
    // Both events of the first source event come before anything for the
    // second, and so on down the batch.
    let mut lp = fresh_loop();
    let batch = vec![
        key(KEY_A, Transition::Pressed),
        key(KEY_D, Transition::Pressed),
        key(KEY_W, Transition::Pressed),
    ];
    let out = lp.handle_events(&batch);
    assert_eq!(
        out,
        vec![
            EmittedAction::Press(KEY_A),
            EmittedAction::Press(KEY_D),
            EmittedAction::Release(KEY_A),
            EmittedAction::Press(KEY_W),
        ]
    );
    assert_eq!(lp.state, LoopState::Running);
    assert!(lp.resolver.horizontal.held_a && lp.resolver.horizontal.held_b);
    assert!(lp.resolver.vertical.held_a);
}

#[test]
fn batch_of_two_equals_two_batches() {
    let batch1 = vec![key(KEY_A, Transition::Pressed)];
    let batch2 = vec![key(KEY_D, Transition::Pressed)];
    let whole: Vec<SourceEvent> = batch1.iter().chain(batch2.iter()).copied().collect();

    let mut one = fresh_loop();
    let out_whole = one.handle_events(&whole);

    let mut two = fresh_loop();
    let mut out_split = two.handle_events(&batch1);
    out_split.extend(two.handle_events(&batch2));

    assert_eq!(out_whole, out_split);
    assert_eq!(one, two);
}

#[test]
fn empty_batch_is_noop() {
    let mut lp = fresh_loop();
    let before = lp;
    let out = lp.handle_events(&Vec::new());
    assert_eq!(out, vec![]);
    assert_eq!(lp, before);
}

#[test]
fn keyboard_wants_a_z_and_space() {
    assert!(is_likely_keyboard(&vec![KEY_A, KEY_Z, KEY_SPACE, KEY_W]));
    assert!(!is_likely_keyboard(&vec![KEY_A, KEY_Z]));
    assert!(!is_likely_keyboard(&vec![]));
    assert!(!is_likely_keyboard(&vec![KEY_Z, KEY_SPACE]));
}
