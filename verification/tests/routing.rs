use tj::chord::KeyPhase;
use tj::config::{Action, KeyCode};
use tj::routing::{held_key, route_key, HeldRoute, KeyRoute, ModalState};

fn modal(help_open: bool, quit_pending: bool, bpm_prompt: bool, rename_offer: bool) -> ModalState {
    ModalState { help_open, quit_pending, bpm_prompt, rename_offer }
}

#[test]
fn releases_and_repeats_stop_before_prompts() {
    let m = modal(true, true, true, true);
    assert_eq!(route_key(m, false, Some(KeyCode::Char('y')), None), KeyRoute::Ignore);
}

#[test]
fn overlay_closes_first_and_absorbs_quit() {
    let m = modal(true, true, false, false);
    assert_eq!(route_key(m, true, Some(KeyCode::Esc), Some(Action::Quit)), KeyRoute::CloseHelp { suppress_quit: true });
    assert_eq!(route_key(m, true, Some(KeyCode::Char('x')), None), KeyRoute::CloseHelp { suppress_quit: false });
}

#[test]
fn quit_question_takes_yes_or_cancels() {
    let m = modal(false, true, true, false);
    assert_eq!(route_key(m, true, Some(KeyCode::Enter), None), KeyRoute::Quit);
    assert_eq!(route_key(m, true, Some(KeyCode::Char('y')), None), KeyRoute::Quit);
    assert_eq!(route_key(m, true, Some(KeyCode::Char('n')), None), KeyRoute::CancelQuit);
    assert_eq!(route_key(m, true, None, None), KeyRoute::CancelQuit);
}

#[test]
fn tempo_prompt_then_rename_offer() {
    let m = modal(false, false, true, true);
    assert_eq!(route_key(m, true, Some(KeyCode::Char('y')), None), KeyRoute::AnswerBpm { accept: true });
    assert_eq!(route_key(m, true, Some(KeyCode::Char('q')), None), KeyRoute::AnswerBpm { accept: false });
    let m = modal(false, false, false, true);
    assert_eq!(route_key(m, true, Some(KeyCode::Char('y')), None), KeyRoute::OpenTagEditor);
    assert_eq!(route_key(m, true, Some(KeyCode::Enter), None), KeyRoute::Dispatch);
    let m = modal(false, false, false, false);
    assert_eq!(route_key(m, true, Some(KeyCode::Char('y')), None), KeyRoute::Dispatch);
}

#[test]
fn held_keys_nudge_cue_and_toggle() {
    let nb = Some(Action::Deck2NudgeBackward);
    assert_eq!(held_key(KeyPhase::Press, false, nb, None), HeldRoute::Nudge(1, -1));
    assert_eq!(held_key(KeyPhase::Repeat, false, nb, None), HeldRoute::Nudge(1, -1));
    assert_eq!(held_key(KeyPhase::Release, false, nb, None), HeldRoute::NudgeRelease(1));
    assert_eq!(held_key(KeyPhase::Press, false, Some(Action::Deck1NudgeForward), None), HeldRoute::Nudge(0, 1));
    // With Space held, the chord to cue wins over the key's own nudge.
    assert_eq!(held_key(KeyPhase::Press, true, nb, Some(Action::Deck1CuePlay)), HeldRoute::CuePlay(0));
    assert_eq!(held_key(KeyPhase::Press, false, nb, Some(Action::Deck1CuePlay)), HeldRoute::Nudge(1, -1));
    assert_eq!(held_key(KeyPhase::Repeat, true, None, Some(Action::Deck2CuePlay)), HeldRoute::Nothing);
    assert_eq!(held_key(KeyPhase::Press, true, Some(Action::NudgeModeToggle), Some(Action::Deck2CuePlay)), HeldRoute::ToggleNudgeMode);
    assert_eq!(held_key(KeyPhase::Release, false, Some(Action::NudgeModeToggle), None), HeldRoute::Nothing);
}
