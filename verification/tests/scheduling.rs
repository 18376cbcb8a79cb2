use lib::clap::{BurstEvent, BurstScheduler};
use lib::perc1::{DelayCursor, MAX_DELAY_SAMPLES};
use lib::synthesizer::{ReinitAction, SlotGate, MAX_TRACKS};

fn default_layout() -> [bool; MAX_TRACKS] {
    let mut l = [true; MAX_TRACKS];
    l[13] = false;
    l
}

#[test]
fn new_synthesizer_gates_everything() {
    let g = SlotGate::new();
    for s in 0..MAX_TRACKS + 2 {
        assert!(!g.is_active(s));
        assert!(!g.gates(s));
    }
}

#[test]
fn set_slot_active_gates_trigger_and_output() {
    let mut g = SlotGate::new();
    g.initialize_with_layout(&[true; MAX_TRACKS]);
    g.set_slot_active(0, false);
    assert!(!g.gates(0), "deactivated slot should remain silent");
    assert!(g.gates(1));
    g.set_slot_active(0, true);
    assert!(g.gates(0), "reactivated slot should play again");
    g.set_slot_active(MAX_TRACKS, true);
    assert!(!g.is_active(MAX_TRACKS));
}

#[test]
fn reinitialize_inactive_slot_reuses_preallocated_voice() {
    let mut g = SlotGate::new();
    g.initialize_with_layout(&default_layout());
    assert!(!g.is_active(13));
    assert_eq!(g.reinitialize_slot(13), ReinitAction::ReplaceVoice);
    assert!(g.is_active(13));
    assert!(g.gates(13));
    assert_eq!(g.reinitialize_slot(MAX_TRACKS), ReinitAction::Ignore);
}

#[test]
fn reinitialize_before_initialisation_only_resets_smoother() {
    let mut g = SlotGate::new();
    assert_eq!(g.reinitialize_slot(3), ReinitAction::ResetSmoother);
    assert!(!g.is_active(3));
}

#[test]
fn clap_bursts_fire_in_order_at_their_offsets() {
    let times = [0usize, 441, 1102, 2205];
    let mut s = BurstScheduler::new();
    s.trigger();
    let mut fired = Vec::new();
    for n in 0..3000usize {
        match s.tick(&times) {
            BurstEvent::Fire { index, retrigger_snap } => fired.push((n, index, retrigger_snap)),
            BurstEvent::Idle => {}
        }
    }
    assert_eq!(fired, vec![(0, 0, false), (441, 1, true), (1102, 2, true), (2205, 3, true)]);
    assert_eq!(s.burst_count(), 4);
}

#[test]
fn clap_bursts_collapse_at_zero_echo() {
    let times = [0usize; 4];
    let mut s = BurstScheduler::new();
    let events: Vec<BurstEvent> = (0..6).map(|_| s.tick(&times)).collect();
    assert_eq!(
        events,
        vec![
            BurstEvent::Fire { index: 0, retrigger_snap: false },
            BurstEvent::Fire { index: 1, retrigger_snap: true },
            BurstEvent::Fire { index: 2, retrigger_snap: true },
            BurstEvent::Fire { index: 3, retrigger_snap: true },
            BurstEvent::Idle,
            BurstEvent::Idle,
        ]
    );
    s.trigger();
    assert_eq!(s.burst_count(), 0);
    assert_eq!(s.tick(&times), BurstEvent::Fire { index: 0, retrigger_snap: false });
}

#[test]
fn delay_cursor_wraps_at_delay_length() {
    let mut c = DelayCursor::new(3);
    let seen: Vec<usize> = (0..7)
        .map(|_| {
            let p = c.position();
            c.advance();
            p
        })
        .collect();
    assert_eq!(seen, vec![0, 1, 2, 0, 1, 2, 0]);
    c.reset();
    assert_eq!(c.position(), 0);
}

#[test]
fn delay_cursor_caps_and_handles_zero() {
    let mut c = DelayCursor::new(1_000_000);
    for _ in 0..3 * MAX_DELAY_SAMPLES {
        assert!(c.position() < MAX_DELAY_SAMPLES - 1);
        c.advance();
    }
    let mut z = DelayCursor::new(0);
    for _ in 0..5 {
        assert_eq!(z.position(), 0);
        z.advance();
    }
}
