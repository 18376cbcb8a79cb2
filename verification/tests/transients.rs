use lib::dsp::{ClickState, ClickStep, DeclickClock, WhiteNoise};

#[test]
fn click_is_silent_until_triggered() {
    let mut c = ClickState::new();
    assert_eq!(c.step(true), ClickStep::Silent);
    assert!(!c.is_active(true));
}

#[test]
fn click_impulse_only_on_first_sample() {
    let mut c = ClickState::new();
    c.trigger();
    assert!(c.is_active(true));
    assert!(!c.is_active(false));
    let first = c.step(true);
    assert_eq!(first, ClickStep::Sound { impulse: true, noise_state: 0x8798_5aa5 });
    match c.step(true) {
        ClickStep::Sound { impulse, .. } => assert!(!impulse),
        ClickStep::Silent => panic!("click stopped early"),
    }
    assert_eq!(c.step(false), ClickStep::Silent);
}

#[test]
fn every_click_carries_the_same_noise() {
    let mut c = ClickState::new();
    c.trigger();
    let a: Vec<ClickStep> = (0..16).map(|_| c.step(true)).collect();
    c.trigger();
    let b: Vec<ClickStep> = (0..16).map(|_| c.step(true)).collect();
    assert_eq!(a, b);
    let mut w = WhiteNoise::new(0x1234_5678);
    for step in a.iter() {
        match step {
            ClickStep::Sound { noise_state, .. } => assert_eq!(*noise_state, w.next_state()),
            ClickStep::Silent => panic!("silent step while triggered"),
        }
    }
}

#[test]
fn click_reset_silences() {
    let mut c = ClickState::new();
    c.trigger();
    c.step(true);
    c.reset();
    assert_eq!(c.step(true), ClickStep::Silent);
}

#[test]
fn declick_fades_over_exactly_its_length() {
    let mut d = DeclickClock::new(132);
    assert!(!d.is_active());
    assert_eq!(d.next(), None);
    d.arm();
    let mut seen = Vec::new();
    while let Some((elapsed, len)) = d.next() {
        assert_eq!(len, 132);
        seen.push(elapsed);
    }
    assert_eq!(seen, (0..132).collect::<Vec<u32>>());
    assert!(!d.is_active());
}

#[test]
fn declick_length_is_at_least_one_sample() {
    let mut d = DeclickClock::new(0);
    d.arm();
    assert_eq!(d.next(), Some((0, 1)));
    assert_eq!(d.next(), None);
    d.arm();
    d.reset();
    assert_eq!(d.next(), None);
}

#[test]
fn declick_rearm_restarts_the_fade() {
    let mut d = DeclickClock::new(4);
    d.arm();
    d.next();
    d.next();
    d.arm();
    assert_eq!(d.next(), Some((0, 4)));
}
