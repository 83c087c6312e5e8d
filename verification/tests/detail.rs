use tj::detail::{must_recompute, nothing_rendered, record_render, DeckFrame};

fn frame(pos: usize) -> DeckFrame {
    DeckFrame { col_samp: 100, pos, generation: 1, bpm_bits: 120f32.to_bits(), offset_ms: 0, cue_raw: -1, gain_bits: 1f32.to_bits() }
}

#[test]
fn first_frame_renders() {
    let last = nothing_rendered();
    assert!(must_recompute(&last, 80, 6, 2, &frame(0), &frame(0)));
}

#[test]
fn same_frame_after_render_is_current() {
    let a = frame(12_345);
    let b = frame(777);
    let last = record_render(80, 6, 2, &a, &b);
    assert_eq!(last.a.anchor, 12_300);
    assert_eq!(last.b.anchor, 700);
    assert!(!must_recompute(&last, 80, 6, 2, &a, &b));
}

#[test]
fn changes_and_drift_force_a_render() {
    let a = frame(10_000);
    let b = frame(0);
    let last = record_render(80, 6, 2, &a, &b);
    // 59 columns of drift is under three quarters of 80; 60 is not.
    assert!(!must_recompute(&last, 80, 6, 2, &frame(15_900), &b));
    assert!(must_recompute(&last, 80, 6, 2, &frame(16_000), &b));
    assert!(must_recompute(&last, 81, 6, 2, &a, &b));
    assert!(must_recompute(&last, 80, 6, 3, &a, &b));
    let mut cue = b;
    cue.cue_raw = 5;
    assert!(must_recompute(&last, 80, 6, 2, &a, &cue));
}
