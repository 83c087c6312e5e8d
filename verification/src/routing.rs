use vstd::prelude::*;

use crate::chord::KeyPhase;
use crate::config::{action_deck, counterpart, Action, KeyCode};

verus! {

/// What stands between a key press and the deck controls.
#[derive(Clone, Copy, Debug)]
pub struct ModalState {
    /// The key-binding overlay is shown.
    pub help_open: bool,
    /// Quitting while a track plays waits for confirmation.
    pub quit_pending: bool,
    /// A deck asks whether to accept a detected tempo.
    pub bpm_prompt: bool,
    /// A deck offers to rename its file.
    pub rename_offer: bool,
}

/// Where a key goes once the held-key controls have seen it.
#[derive(Clone, Copy, PartialEq, Eq, Debug, Structural)]
pub enum KeyRoute {
    /// Not a press: nothing more happens.
    Ignore,
    /// Close the overlay; when the key was bound to quit, briefly ignore quit.
    CloseHelp { suppress_quit: bool },
    /// Confirmed quit.
    Quit,
    /// Quit not confirmed: the question goes away.
    CancelQuit,
    /// Answer the tempo prompt, which goes away either way.
    AnswerBpm { accept: bool },
    /// Open the tag editor of the deck that offers a rename.
    OpenTagEditor,
    /// Handle the key's action.
    Dispatch,
}

/// Keys that answer yes.
pub open spec fn is_yes(code: Option<KeyCode>) -> bool {
    code == Some(KeyCode::Char('y')) || code == Some(KeyCode::Enter)
}

/// The route of a key event: only presses go on; the overlay, then a quit
/// question, then a tempo prompt take the key first; `y` accepts a rename
/// offer; everything else goes to the key's action.
pub open spec fn route_spec(m: ModalState, press: bool, code: Option<KeyCode>, plain: Option<Action>) -> KeyRoute {
    if !press {
        KeyRoute::Ignore
    } else if m.help_open {
        KeyRoute::CloseHelp { suppress_quit: plain == Some(Action::Quit) }
    } else if m.quit_pending {
        if is_yes(code) {
            KeyRoute::Quit
        } else {
            KeyRoute::CancelQuit
        }
    } else if m.bpm_prompt {
        KeyRoute::AnswerBpm { accept: is_yes(code) }
    } else if m.rename_offer && code == Some(KeyCode::Char('y')) {
        KeyRoute::OpenTagEditor
    } else {
        KeyRoute::Dispatch
    }
}

fn is_yes_key(code: Option<KeyCode>) -> (r: bool)
    ensures
        r == is_yes(code),
{
    match code {
        Some(KeyCode::Char(c)) => c == 'y',
        Some(KeyCode::Enter) => true,
        _ => false,
    }
}

/// Routes a key event; `code` is the key (none for one the keymap cannot
/// name) and `plain` the action bound to it alone.
pub fn route_key(m: ModalState, press: bool, code: Option<KeyCode>, plain: Option<Action>) -> (r: KeyRoute)
    ensures
        r == route_spec(m, press, code, plain),
{
    if !press {
        KeyRoute::Ignore
    } else if m.help_open {
        let suppress = match plain {
            Some(Action::Quit) => true,
            _ => false,
        };
        KeyRoute::CloseHelp { suppress_quit: suppress }
    } else if m.quit_pending {
        if is_yes_key(code) {
            KeyRoute::Quit
        } else {
            KeyRoute::CancelQuit
        }
    } else if m.bpm_prompt {
        KeyRoute::AnswerBpm { accept: is_yes_key(code) }
    } else if m.rename_offer && match code {
        Some(KeyCode::Char(c)) => c == 'y',
        _ => false,
    } {
        KeyRoute::OpenTagEditor
    } else {
        KeyRoute::Dispatch
    }
}

/// What a key does while it is held, before the press-only controls.
#[derive(Clone, Copy, PartialEq, Eq, Debug, Structural)]
pub enum HeldRoute {
    /// Nothing happens while the key is held.
    Nothing,
    /// Switch every deck between jump and warp nudging.
    ToggleNudgeMode,
    /// Space chord: cue and play the deck.
    CuePlay(usize),
    /// Nudge the deck (-1 backward, 1 forward); repeats keep nudging.
    Nudge(usize, i8),
    /// The nudge key of the deck was let go.
    NudgeRelease(usize),
}

/// The deck and direction of a nudge action.
pub open spec fn nudge_of(a: Option<Action>) -> Option<(usize, i8)> {
    match a {
        Some(Action::Deck1NudgeBackward) => Some((0usize, -1i8)),
        Some(Action::Deck1NudgeForward) => Some((0usize, 1i8)),
        Some(Action::Deck2NudgeBackward) => Some((1usize, -1i8)),
        Some(Action::Deck2NudgeForward) => Some((1usize, 1i8)),
        _ => None,
    }
}

/// The held-key route: on a press, the nudge-mode key, then a Space chord
/// to cue a deck (while Space is held); on a press or repeat, a nudge key;
/// on a release, the end of a nudge.
pub open spec fn held_spec(phase: KeyPhase, space_held: bool, plain: Option<Action>, chord: Option<Action>) -> HeldRoute {
    if phase == KeyPhase::Press && plain == Some(Action::NudgeModeToggle) {
        HeldRoute::ToggleNudgeMode
    } else if phase == KeyPhase::Press && space_held && chord == Some(Action::Deck1CuePlay) {
        HeldRoute::CuePlay(0)
    } else if phase == KeyPhase::Press && space_held && chord == Some(Action::Deck2CuePlay) {
        HeldRoute::CuePlay(1)
    } else if phase != KeyPhase::Release && nudge_of(plain) is Some {
        HeldRoute::Nudge(nudge_of(plain).unwrap().0, nudge_of(plain).unwrap().1)
    } else if phase == KeyPhase::Release && nudge_of(plain) is Some {
        HeldRoute::NudgeRelease(nudge_of(plain).unwrap().0)
    } else {
        HeldRoute::Nothing
    }
}

/// A nudge works on the deck its action names, forward (+1) for a
/// nudge-forward action and backward (-1) for a nudge-backward one; the same
/// key on the other deck nudges that deck the same way, and the two nudges of
/// one deck go opposite ways.
pub proof fn law_nudge_direction(a: Action, b: Action)
    ensures
        nudge_of(Some(a)) matches Some((s, d)) ==> {
            &&& action_deck(a) == Some(s)
            &&& nudge_of(Some(counterpart(a))) == Some(((1 - s) as usize, d))
            &&& (d == 1 <==> (a == Action::Deck1NudgeForward || a == Action::Deck2NudgeForward))
            &&& (d == -1 <==> (a == Action::Deck1NudgeBackward || a == Action::Deck2NudgeBackward))
        },
        nudge_of(Some(a)) is Some && nudge_of(Some(b)) is Some && a != b && nudge_of(Some(a)).unwrap().0
            == nudge_of(Some(b)).unwrap().0 ==> nudge_of(Some(a)).unwrap().1 == -nudge_of(Some(b)).unwrap().1,
{
}

fn nudge_action(a: Option<Action>) -> (r: Option<(usize, i8)>)
    ensures
        r == nudge_of(a),
{
    match a {
        Some(Action::Deck1NudgeBackward) => Some((0, -1)),
        Some(Action::Deck1NudgeForward) => Some((0, 1)),
        Some(Action::Deck2NudgeBackward) => Some((1, -1)),
        Some(Action::Deck2NudgeForward) => Some((1, 1)),
        _ => None,
    }
}

/// Routes a key event to the held-key controls; `plain` is the action bound
/// to the key alone and `chord` the one bound to Space with it.
pub fn held_key(phase: KeyPhase, space_held: bool, plain: Option<Action>, chord: Option<Action>) -> (r: HeldRoute)
    ensures
        r == held_spec(phase, space_held, plain, chord),
{
    let press = match phase {
        KeyPhase::Press => true,
        _ => false,
    };
    let release = match phase {
        KeyPhase::Release => true,
        _ => false,
    };
    let toggle = match plain {
        Some(Action::NudgeModeToggle) => true,
        _ => false,
    };
    let cue1 = match chord {
        Some(Action::Deck1CuePlay) => true,
        _ => false,
    };
    let cue2 = match chord {
        Some(Action::Deck2CuePlay) => true,
        _ => false,
    };
    if press && toggle {
        HeldRoute::ToggleNudgeMode
    } else if press && space_held && cue1 {
        HeldRoute::CuePlay(0)
    } else if press && space_held && cue2 {
        HeldRoute::CuePlay(1)
    } else {
        match nudge_action(plain) {
            Some((slot, dir)) => if release {
                HeldRoute::NudgeRelease(slot)
            } else {
                HeldRoute::Nudge(slot, dir)
            },
            None => HeldRoute::Nothing,
        }
    }
}

/// A key event that is not a press never reaches the deck controls or any
/// prompt, and while the overlay is shown no key does anything but close it.
pub proof fn law_overlay_and_prompts_take_keys_first(m: ModalState, press: bool, code: Option<KeyCode>, plain: Option<Action>)
    ensures
        !press ==> route_spec(m, press, code, plain) == KeyRoute::Ignore,
        press && m.help_open ==> route_spec(m, press, code, plain) is CloseHelp,
        route_spec(m, press, code, plain) == KeyRoute::Dispatch ==> press && !m.help_open && !m.quit_pending
            && !m.bpm_prompt,
{
}

} // verus!
