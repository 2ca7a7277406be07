use vol_llm::overlay::{backdrop_class, next_phase, OverlayMachine, OverlayPhase, OverlayTimer};

#[test]
fn hidden_to_entering_on_open() {
    assert_eq!(next_phase(OverlayPhase::Hidden, true), OverlayPhase::Entering);
}

#[test]
fn hidden_stays_hidden_when_closed() {
    assert_eq!(next_phase(OverlayPhase::Hidden, false), OverlayPhase::Hidden);
}

#[test]
fn entering_to_exiting_when_closed_during_enter() {
    assert_eq!(next_phase(OverlayPhase::Entering, false), OverlayPhase::Exiting);
}

#[test]
fn entering_stays_entering_while_open() {
    assert_eq!(next_phase(OverlayPhase::Entering, true), OverlayPhase::Entering);
}

#[test]
fn visible_to_exiting_on_close() {
    assert_eq!(next_phase(OverlayPhase::Visible, false), OverlayPhase::Exiting);
}

#[test]
fn visible_stays_visible_while_open() {
    assert_eq!(next_phase(OverlayPhase::Visible, true), OverlayPhase::Visible);
}

#[test]
fn exiting_to_entering_when_reopened() {
    assert_eq!(next_phase(OverlayPhase::Exiting, true), OverlayPhase::Entering);
}

#[test]
fn exiting_to_hidden_when_closed() {
    assert_eq!(next_phase(OverlayPhase::Exiting, false), OverlayPhase::Exiting);
}

#[test]
fn next_phase_applied_twice_changes_nothing_more() {
    for p in [OverlayPhase::Hidden, OverlayPhase::Entering, OverlayPhase::Visible, OverlayPhase::Exiting] {
        for open in [true, false] {
            let once = next_phase(p, open);
            assert_eq!(next_phase(once, open), once);
        }
    }
}

#[test]
fn overlay_machine_open_then_close_runs_timers() {
    let mut m = OverlayMachine::new(false);
    assert_eq!(m.phase, OverlayPhase::Hidden);
    assert_eq!(m.on_open_prop(false), OverlayTimer::Idle);
    assert_eq!(m.phase, OverlayPhase::Hidden);
    let t = m.on_open_prop(true);
    assert_eq!(m.phase, OverlayPhase::Entering);
    assert!(matches!(t, OverlayTimer::Enter(_)));
    m.on_enter_timeout();
    assert_eq!(m.phase, OverlayPhase::Visible);
    let t = m.on_open_prop(false);
    assert_eq!(m.phase, OverlayPhase::Exiting);
    assert!(matches!(t, OverlayTimer::Exit(_)));
    m.on_exit_timeout();
    assert_eq!(m.phase, OverlayPhase::Hidden);
}

#[test]
fn backdrop_class_differs_between_visible_and_hidden() {
    assert_ne!(backdrop_class(OverlayPhase::Visible), backdrop_class(OverlayPhase::Hidden));
}
