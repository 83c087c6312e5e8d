use tj::chord::{KeyPhase, SpaceModifier};

#[test]
fn space_press_arms_chord() {
    let mut s = SpaceModifier::new();
    s.start_frame();
    s.on_space(KeyPhase::Press);
    assert!(s.held);
    assert!(!s.suppressed);
}

#[test]
fn repeats_after_chord_stay_latched() {
    let mut s = SpaceModifier::new();
    s.on_space(KeyPhase::Press);
    s.on_chord();
    assert!(!s.held);
    for _ in 0..5 {
        s.start_frame();
        s.on_space(KeyPhase::Repeat);
        s.on_space(KeyPhase::Press);
        assert!(!s.held);
        assert!(s.suppressed);
    }
}

#[test]
fn quiet_frame_clears_latch() {
    let mut s = SpaceModifier::new();
    s.on_space(KeyPhase::Press);
    s.on_chord();
    s.start_frame();
    s.start_frame();
    assert!(!s.suppressed);
    s.on_space(KeyPhase::Press);
    assert!(s.held);
}

#[test]
fn release_clears_everything() {
    let mut s = SpaceModifier::new();
    s.on_space(KeyPhase::Press);
    s.on_chord();
    s.on_space(KeyPhase::Release);
    assert!(!s.held);
    assert!(!s.suppressed);
    s.on_space(KeyPhase::Press);
    assert!(s.held);
}
