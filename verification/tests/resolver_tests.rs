use snap_tap::axis::AxisPair;
use snap_tap::events::{EmittedAction, KeyTransition, RawEvent, SourceEvent, Transition};
use snap_tap::keyboard::{KEY_A, KEY_D, KEY_S, KEY_W};
use snap_tap::resolver::AxisResolver;

fn key(code: u16, transition: Transition) -> SourceEvent {
    SourceEvent::Key(KeyTransition { code, transition })
}

fn wasd() -> AxisResolver {
    AxisResolver::new(AxisPair::new(KEY_A, KEY_D), AxisPair::new(KEY_W, KEY_S))
}

/// Replays emitted actions and returns which of the two keys are active at
/// the end.
fn active(actions: &[EmittedAction], key_a: u16, key_b: u16) -> (bool, bool) {
    let mut a = false;
    let mut b = false;
    for act in actions {
        match *act {
            EmittedAction::Press(c) => {
                if c == key_a {
                    a = true;
                } else if c == key_b {
                    b = true;
                }
            }
            EmittedAction::Release(c) => {
                if c == key_a {
                    a = false;
                } else if c == key_b {
                    b = false;
                }
            }
            EmittedAction::Forward(_) => {}
        }
    }
    (a, b)
}

#[test]
fn concrete_scenario_left_right() {
    // Left = A, Right = D on the horizontal pair.
    let mut r = wasd();

    let out = r.process(key(KEY_A, Transition::Pressed));
    assert_eq!(out, vec![EmittedAction::Press(KEY_A)]);

    let out = r.process(key(KEY_D, Transition::Pressed));
    assert_eq!(out, vec![EmittedAction::Press(KEY_D), EmittedAction::Release(KEY_A)]);

    let out = r.process(key(KEY_D, Transition::Released));
    assert_eq!(out, vec![EmittedAction::Release(KEY_D), EmittedAction::Press(KEY_A)]);

    let out = r.process(key(KEY_A, Transition::Released));
    assert_eq!(out, vec![EmittedAction::Release(KEY_A)]);

    assert!(!r.horizontal.held_a && !r.horizontal.held_b);
}

#[test]
fn restoration_sequence() {
    // Pressed(X), Pressed(Y), Released(Y) yields
    // [Pressed(X), Pressed(Y), Released(X), Released(Y), Pressed(X)].
    let mut r = wasd();
    let mut all = Vec::new();
    all.extend(r.process(key(KEY_A, Transition::Pressed)));
    all.extend(r.process(key(KEY_D, Transition::Pressed)));
    all.extend(r.process(key(KEY_D, Transition::Released)));
    assert_eq!(
        all,
        vec![
            EmittedAction::Press(KEY_A),
            EmittedAction::Press(KEY_D),
            EmittedAction::Release(KEY_A),
            EmittedAction::Release(KEY_D),
            EmittedAction::Press(KEY_A),
        ]
    );
}

#[test]
fn repeat_is_noop_on_pair_member() {
    let mut r = wasd();
    r.process(key(KEY_W, Transition::Pressed));
    let before = r;
    let out = r.process(key(KEY_W, Transition::Repeated));
    assert_eq!(out, vec![]);
    assert_eq!(r, before);
    let out = r.process(key(KEY_S, Transition::Repeated));
    assert_eq!(out, vec![]);
    assert_eq!(r, before);
}

#[test]
fn repeat_outside_pairs_is_forwarded() {
    let mut r = wasd();
    let before = r;
    let ev = key(58, Transition::Repeated);
    let out = r.process(ev);
    assert_eq!(out, vec![EmittedAction::Forward(ev)]);
    assert_eq!(r, before);
}

#[test]
fn passthrough_key_outside_pairs() {
    let mut r = wasd();
    let before = r;
    let ev = key(57, Transition::Pressed);
    let out = r.process(ev);
    assert_eq!(out, vec![EmittedAction::Forward(ev)]);
    assert_eq!(r, before);
}

#[test]
fn passthrough_non_key_event() {
    let mut r = wasd();
    let before = r;
    let ev = SourceEvent::Other(RawEvent { event_type: 0, code: 0, value: 0 });
    let out = r.process(ev);
    assert_eq!(out, vec![EmittedAction::Forward(ev)]);
    assert_eq!(r, before);
}

#[test]
fn duplicate_press_produces_nothing() {
    let mut r = wasd();
    r.process(key(KEY_A, Transition::Pressed));
    let before = r;
    let out = r.process(key(KEY_A, Transition::Pressed));
    assert_eq!(out, vec![]);
    assert_eq!(r, before);
}

#[test]
fn duplicate_release_produces_nothing() {
    let mut r = wasd();
    let before = r;
    let out = r.process(key(KEY_A, Transition::Released));
    assert_eq!(out, vec![]);
    assert_eq!(r, before);
}

#[test]
fn mutual_exclusion_over_interleavings() {
    // Drive one pair through a same-order release (press A, press D,
    // release A, release D) and check after every step that at most one
    // output is active.
    let mut r = wasd();
    let steps = [
        key(KEY_A, Transition::Pressed),
        key(KEY_D, Transition::Pressed),
        key(KEY_A, Transition::Released),
        key(KEY_D, Transition::Released),
    ];
    let mut all: Vec<EmittedAction> = Vec::new();
    for ev in steps {
        all.extend(r.process(ev));
        let (a, d) = active(&all, KEY_A, KEY_D);
        assert!(!(a && d));
    }
    let (a, d) = active(&all, KEY_A, KEY_D);
    assert!(!a && !d);
}

#[test]
fn pairs_are_independent() {
    let mut r = wasd();
    r.process(key(KEY_A, Transition::Pressed));
    let vertical_before = r.vertical;
    r.process(key(KEY_W, Transition::Pressed));
    assert!(r.horizontal.held_a);
    assert_eq!(r.vertical.key_a, vertical_before.key_a);
    assert!(r.vertical.held_a);
    assert_eq!(r.horizontal.key_a, KEY_A);
}

#[test]
fn suppressed_key_release_in_press_order() {
    // Press A, press D (A suppressed), release A: A's flag clears, its
    // output is re-released and D is restored, as the rule states.
    let mut r = wasd();
    r.process(key(KEY_A, Transition::Pressed));
    r.process(key(KEY_D, Transition::Pressed));
    let out = r.process(key(KEY_A, Transition::Released));
    assert_eq!(out, vec![EmittedAction::Release(KEY_A), EmittedAction::Press(KEY_D)]);
    assert!(!r.horizontal.held_a && r.horizontal.held_b);
}
