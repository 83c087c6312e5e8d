use tj::config::{Action, KeyBinding, KeyCode, KeyMap};
use tj::controls::{
    beat_jump, filter_down, filter_up, initial_latency, next_scheme, rename_offer_active, resolve_action,
    step_height, step_latency, zoom_in, zoom_out,
};
use tj::controls::{load_percent, on_bpm_detected, tap_session_ended, Detection};
use tj::controls::{round_to_ten, step_offset, wrap_offset};
use tj::controls::{deck_op, DeckOp};
use tj::controls::{on_redetect, Redetect};

#[test]
fn initial_latency_rounds_and_clamps() {
    assert_eq!(initial_latency(0), 0);
    assert_eq!(initial_latency(44), 40);
    assert_eq!(initial_latency(45), 50);
    assert_eq!(initial_latency(-3), 0);
    assert_eq!(initial_latency(999), 250);
    assert_eq!(initial_latency(i64::MIN), 0);
    assert_eq!(initial_latency(i64::MAX), 250);
}

#[test]
fn latency_steps_stay_in_range() {
    assert_eq!(step_latency(0, false), 0);
    assert_eq!(step_latency(5, false), 0);
    assert_eq!(step_latency(40, false), 30);
    assert_eq!(step_latency(40, true), 50);
    assert_eq!(step_latency(245, true), 250);
    assert_eq!(step_latency(250, true), 250);
    assert_eq!(step_latency(step_latency(120, true), false), 120);
}

#[test]
fn filter_steps_stay_in_range() {
    assert_eq!(filter_up(0), 1);
    assert_eq!(filter_up(16), 16);
    assert_eq!(filter_down(0), -1);
    assert_eq!(filter_down(-16), -16);
    assert_eq!(filter_down(filter_up(-3)), -3);
}

#[test]
fn zoom_height_and_scheme_steps() {
    assert_eq!(zoom_in(0, 5), 1);
    assert_eq!(zoom_in(4, 5), 4);
    assert_eq!(zoom_out(0), 0);
    assert_eq!(zoom_out(3), 2);
    assert_eq!(step_height(6, true, 3, 10), 7);
    assert_eq!(step_height(10, true, 3, 10), 10);
    assert_eq!(step_height(3, false, 3, 10), 3);
    assert_eq!(step_height(4, false, 3, 10), 3);
    assert_eq!(next_scheme(0, 4), 1);
    assert_eq!(next_scheme(3, 4), 0);
}

#[test]
fn chords_win_while_space_is_held() {
    let mut m = KeyMap::new();
    m.insert(KeyBinding::Key(KeyCode::Char('c')), Action::Deck1Cue);
    m.insert(KeyBinding::SpaceChord(KeyCode::Char('c')), Action::Deck1CuePlay);
    m.insert(KeyBinding::Key(KeyCode::Char(' ')), Action::Deck1PlayPause);
    m.insert(KeyBinding::SpaceChord(KeyCode::Char(' ')), Action::Quit);
    assert_eq!(resolve_action(&m, true, KeyCode::Char('c')), (Some(Action::Deck1CuePlay), true));
    assert_eq!(resolve_action(&m, false, KeyCode::Char('c')), (Some(Action::Deck1Cue), false));
    // Space itself never forms a chord.
    assert_eq!(resolve_action(&m, true, KeyCode::Char(' ')), (Some(Action::Deck1PlayPause), false));
    // An unbound chord falls back to the plain key.
    m.insert(KeyBinding::Key(KeyCode::Left), Action::ZoomOut);
    assert_eq!(resolve_action(&m, true, KeyCode::Left), (Some(Action::ZoomOut), false));
    assert_eq!(resolve_action(&m, true, KeyCode::Esc), (None, false));
}

#[test]
fn beat_jumps() {
    assert_eq!(beat_jump(Action::Deck1JumpForward4b), Some((0, 16)));
    assert_eq!(beat_jump(Action::Deck2JumpBackward8b), Some((1, -32)));
    assert_eq!(beat_jump(Action::Deck2JumpForward1bt), Some((1, 1)));
    assert_eq!(beat_jump(Action::Deck1JumpBackward4bt), Some((0, -4)));
    assert_eq!(beat_jump(Action::Quit), None);
}

#[test]
fn rename_offer_needs_quiet_deck() {
    assert!(rename_offer_active(true, true, false, false, false));
    assert!(!rename_offer_active(true, true, true, false, false));
    assert!(!rename_offer_active(true, true, false, true, false));
    assert!(!rename_offer_active(true, true, false, false, true));
    assert!(!rename_offer_active(false, true, false, false, false));
    assert!(!rename_offer_active(true, false, false, false, false));
}

#[test]
fn offsets_round_and_wrap() {
    assert_eq!(round_to_ten(14), 10);
    assert_eq!(round_to_ten(15), 20);
    assert_eq!(round_to_ten(-15), -20);
    assert_eq!(round_to_ten(-14), -10);
    assert_eq!(wrap_offset(510, 500), 10);
    assert_eq!(wrap_offset(-10, 500), 490);
    assert_eq!(wrap_offset(-500, 500), 0);
    assert_eq!(wrap_offset(i64::MIN, 7), i64::MIN.rem_euclid(7));
    assert_eq!(step_offset(495, 10, 500), 5);
    assert_eq!(step_offset(5, -10, 500), 495);
    // A step and the opposite step cancel.
    assert_eq!(step_offset(step_offset(495, 10, 500), -10, 500), 495);
}

#[test]
fn detection_and_taps() {
    assert_eq!(on_bpm_detected(false, true, false), Detection::Apply { establish: true });
    assert_eq!(on_bpm_detected(true, false, false), Detection::Apply { establish: false });
    assert_eq!(on_bpm_detected(true, false, true), Detection::Apply { establish: true });
    assert_eq!(on_bpm_detected(true, true, false), Detection::AskUser);
    assert!(tap_session_ended(true, false, 8));
    assert!(!tap_session_ended(true, false, 7));
    assert!(!tap_session_ended(true, true, 12));
    assert!(!tap_session_ended(false, false, 12));
    assert_eq!(load_percent(50, 200), Some(25));
    assert_eq!(load_percent(300, 200), Some(100));
    assert_eq!(load_percent(5, 0), None);
}

#[test]
fn deck_ops() {
    assert_eq!(deck_op(Action::Deck1PlayPause), Some((0, DeckOp::PlayPause)));
    assert_eq!(deck_op(Action::Deck2FilterReset), Some((1, DeckOp::FilterReset)));
    assert_eq!(deck_op(Action::Deck2CuePlay), Some((1, DeckOp::CuePlay)));
    assert_eq!(deck_op(Action::Deck1JumpForward4b), None);
    assert_eq!(deck_op(Action::ZoomIn), None);
}

#[test]
fn redetect_key_decisions() {
    assert_eq!(on_redetect(true, true, true, true), Redetect::CancelPrompt);
    assert_eq!(on_redetect(false, true, true, false), Redetect::Restore);
    assert_eq!(on_redetect(false, false, true, true), Redetect::Resume);
    assert_eq!(on_redetect(false, false, true, false), Redetect::Start);
    assert_eq!(on_redetect(false, false, false, true), Redetect::Nothing);
}
