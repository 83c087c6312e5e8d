use vstd::prelude::*;
use crate::assoc::{assoc_map, is_last_for_key, lemma_assoc_absent, lemma_assoc_last};
use crate::text::{chars_eq, chars_of, str_eq};

verus! {

/// A key the keymap can name.
#[derive(Clone, Copy, PartialEq, Eq, Debug, Structural)]
pub enum KeyCode {
    Char(char),
    Left,
    Right,
    Up,
    Down,
    Enter,
    Backspace,
    Esc,
}

/// A key alone, or a key pressed while space is held.
#[derive(Clone, Copy, PartialEq, Eq, Debug, Structural)]
pub enum KeyBinding {
    Key(KeyCode),
    SpaceChord(KeyCode),
}

/// Everything a key can be bound to.
#[derive(Clone, Copy, PartialEq, Eq, Debug, Structural)]
pub enum Action {
    Quit,
    Help,
    TerminalRefresh,
    VinylModeToggle,
    ZoomIn,
    ZoomOut,
    HeightIncrease,
    HeightDecrease,
    LatencyIncrease,
    LatencyDecrease,
    PaletteCycle,
    NudgeModeToggle,
    ArtCycle,
    Deck1PlayPause,
    Deck1OpenBrowser,
    Deck1LevelUp,
    Deck1LevelDown,
    Deck1LevelMax,
    Deck1LevelMin,
    Deck1FilterIncrease,
    Deck1FilterDecrease,
    Deck1FilterReset,
    Deck1FilterSlopeIncrease,
    Deck1FilterSlopeDecrease,
    Deck1BpmTap,
    Deck1MetronomeToggle,
    Deck1RedetectBpm,
    Deck1BpmIncrease,
    Deck1BpmDecrease,
    Deck1BaseBpmIncrease,
    Deck1BaseBpmDecrease,
    Deck1TempoReset,
    Deck1NudgeForward,
    Deck1NudgeBackward,
    Deck1OffsetIncrease,
    Deck1OffsetDecrease,
    Deck1JumpForward4b,
    Deck1JumpBackward4b,
    Deck1JumpForward8b,
    Deck1JumpBackward8b,
    Deck1JumpForward1bt,
    Deck1JumpBackward1bt,
    Deck1JumpForward4bt,
    Deck1JumpBackward4bt,
    Deck1Cue,
    Deck1CuePlay,
    Deck1PflToggle,
    Deck1GainIncrease,
    Deck1GainDecrease,
    Deck1PitchUp,
    Deck1PitchDown,
    Deck2PlayPause,
    Deck2OpenBrowser,
    Deck2LevelUp,
    Deck2LevelDown,
    Deck2LevelMax,
    Deck2LevelMin,
    Deck2FilterIncrease,
    Deck2FilterDecrease,
    Deck2FilterReset,
    Deck2FilterSlopeIncrease,
    Deck2FilterSlopeDecrease,
    Deck2BpmTap,
    Deck2MetronomeToggle,
    Deck2RedetectBpm,
    Deck2BpmIncrease,
    Deck2BpmDecrease,
    Deck2BaseBpmIncrease,
    Deck2BaseBpmDecrease,
    Deck2TempoReset,
    Deck2NudgeForward,
    Deck2NudgeBackward,
    Deck2OffsetIncrease,
    Deck2OffsetDecrease,
    Deck2JumpForward4b,
    Deck2JumpBackward4b,
    Deck2JumpForward8b,
    Deck2JumpBackward8b,
    Deck2JumpForward1bt,
    Deck2JumpBackward1bt,
    Deck2JumpForward4bt,
    Deck2JumpBackward4bt,
    Deck2Cue,
    Deck2CuePlay,
    Deck2PflToggle,
    Deck2GainIncrease,
    Deck2GainDecrease,
    Deck2PitchUp,
    Deck2PitchDown,
}

/// The deck an action belongs to (0 for deck 1, 1 for deck 2), as its name
/// says; none for the actions of the whole player.
pub open spec fn action_deck(a: Action) -> Option<usize> {
    match a {
        Action::Deck1PlayPause => Some(0usize),
        Action::Deck1OpenBrowser => Some(0usize),
        Action::Deck1LevelUp => Some(0usize),
        Action::Deck1LevelDown => Some(0usize),
        Action::Deck1LevelMax => Some(0usize),
        Action::Deck1LevelMin => Some(0usize),
        Action::Deck1FilterIncrease => Some(0usize),
        Action::Deck1FilterDecrease => Some(0usize),
        Action::Deck1FilterReset => Some(0usize),
        Action::Deck1FilterSlopeIncrease => Some(0usize),
        Action::Deck1FilterSlopeDecrease => Some(0usize),
        Action::Deck1BpmTap => Some(0usize),
        Action::Deck1MetronomeToggle => Some(0usize),
        Action::Deck1RedetectBpm => Some(0usize),
        Action::Deck1BpmIncrease => Some(0usize),
        Action::Deck1BpmDecrease => Some(0usize),
        Action::Deck1BaseBpmIncrease => Some(0usize),
        Action::Deck1BaseBpmDecrease => Some(0usize),
        Action::Deck1TempoReset => Some(0usize),
        Action::Deck1NudgeForward => Some(0usize),
        Action::Deck1NudgeBackward => Some(0usize),
        Action::Deck1OffsetIncrease => Some(0usize),
        Action::Deck1OffsetDecrease => Some(0usize),
        Action::Deck1JumpForward4b => Some(0usize),
        Action::Deck1JumpBackward4b => Some(0usize),
        Action::Deck1JumpForward8b => Some(0usize),
        Action::Deck1JumpBackward8b => Some(0usize),
        Action::Deck1JumpForward1bt => Some(0usize),
        Action::Deck1JumpBackward1bt => Some(0usize),
        Action::Deck1JumpForward4bt => Some(0usize),
        Action::Deck1JumpBackward4bt => Some(0usize),
        Action::Deck1Cue => Some(0usize),
        Action::Deck1CuePlay => Some(0usize),
        Action::Deck1PflToggle => Some(0usize),
        Action::Deck1GainIncrease => Some(0usize),
        Action::Deck1GainDecrease => Some(0usize),
        Action::Deck1PitchUp => Some(0usize),
        Action::Deck1PitchDown => Some(0usize),
        Action::Deck2PlayPause => Some(1usize),
        Action::Deck2OpenBrowser => Some(1usize),
        Action::Deck2LevelUp => Some(1usize),
        Action::Deck2LevelDown => Some(1usize),
        Action::Deck2LevelMax => Some(1usize),
        Action::Deck2LevelMin => Some(1usize),
        Action::Deck2FilterIncrease => Some(1usize),
        Action::Deck2FilterDecrease => Some(1usize),
        Action::Deck2FilterReset => Some(1usize),
        Action::Deck2FilterSlopeIncrease => Some(1usize),
        Action::Deck2FilterSlopeDecrease => Some(1usize),
        Action::Deck2BpmTap => Some(1usize),
        Action::Deck2MetronomeToggle => Some(1usize),
        Action::Deck2RedetectBpm => Some(1usize),
        Action::Deck2BpmIncrease => Some(1usize),
        Action::Deck2BpmDecrease => Some(1usize),
        Action::Deck2BaseBpmIncrease => Some(1usize),
        Action::Deck2BaseBpmDecrease => Some(1usize),
        Action::Deck2TempoReset => Some(1usize),
        Action::Deck2NudgeForward => Some(1usize),
        Action::Deck2NudgeBackward => Some(1usize),
        Action::Deck2OffsetIncrease => Some(1usize),
        Action::Deck2OffsetDecrease => Some(1usize),
        Action::Deck2JumpForward4b => Some(1usize),
        Action::Deck2JumpBackward4b => Some(1usize),
        Action::Deck2JumpForward8b => Some(1usize),
        Action::Deck2JumpBackward8b => Some(1usize),
        Action::Deck2JumpForward1bt => Some(1usize),
        Action::Deck2JumpBackward1bt => Some(1usize),
        Action::Deck2JumpForward4bt => Some(1usize),
        Action::Deck2JumpBackward4bt => Some(1usize),
        Action::Deck2Cue => Some(1usize),
        Action::Deck2CuePlay => Some(1usize),
        Action::Deck2PflToggle => Some(1usize),
        Action::Deck2GainIncrease => Some(1usize),
        Action::Deck2GainDecrease => Some(1usize),
        Action::Deck2PitchUp => Some(1usize),
        Action::Deck2PitchDown => Some(1usize),
        _ => None,
    }
}

/// The same control on the other deck (`Deck1X` and `Deck2X` swap); the
/// actions of the whole player stay as they are.
pub open spec fn counterpart(a: Action) -> Action {
    match a {
        Action::Deck1PlayPause => Action::Deck2PlayPause,
        Action::Deck1OpenBrowser => Action::Deck2OpenBrowser,
        Action::Deck1LevelUp => Action::Deck2LevelUp,
        Action::Deck1LevelDown => Action::Deck2LevelDown,
        Action::Deck1LevelMax => Action::Deck2LevelMax,
        Action::Deck1LevelMin => Action::Deck2LevelMin,
        Action::Deck1FilterIncrease => Action::Deck2FilterIncrease,
        Action::Deck1FilterDecrease => Action::Deck2FilterDecrease,
        Action::Deck1FilterReset => Action::Deck2FilterReset,
        Action::Deck1FilterSlopeIncrease => Action::Deck2FilterSlopeIncrease,
        Action::Deck1FilterSlopeDecrease => Action::Deck2FilterSlopeDecrease,
        Action::Deck1BpmTap => Action::Deck2BpmTap,
        Action::Deck1MetronomeToggle => Action::Deck2MetronomeToggle,
        Action::Deck1RedetectBpm => Action::Deck2RedetectBpm,
        Action::Deck1BpmIncrease => Action::Deck2BpmIncrease,
        Action::Deck1BpmDecrease => Action::Deck2BpmDecrease,
        Action::Deck1BaseBpmIncrease => Action::Deck2BaseBpmIncrease,
        Action::Deck1BaseBpmDecrease => Action::Deck2BaseBpmDecrease,
        Action::Deck1TempoReset => Action::Deck2TempoReset,
        Action::Deck1NudgeForward => Action::Deck2NudgeForward,
        Action::Deck1NudgeBackward => Action::Deck2NudgeBackward,
        Action::Deck1OffsetIncrease => Action::Deck2OffsetIncrease,
        Action::Deck1OffsetDecrease => Action::Deck2OffsetDecrease,
        Action::Deck1JumpForward4b => Action::Deck2JumpForward4b,
        Action::Deck1JumpBackward4b => Action::Deck2JumpBackward4b,
        Action::Deck1JumpForward8b => Action::Deck2JumpForward8b,
        Action::Deck1JumpBackward8b => Action::Deck2JumpBackward8b,
        Action::Deck1JumpForward1bt => Action::Deck2JumpForward1bt,
        Action::Deck1JumpBackward1bt => Action::Deck2JumpBackward1bt,
        Action::Deck1JumpForward4bt => Action::Deck2JumpForward4bt,
        Action::Deck1JumpBackward4bt => Action::Deck2JumpBackward4bt,
        Action::Deck1Cue => Action::Deck2Cue,
        Action::Deck1CuePlay => Action::Deck2CuePlay,
        Action::Deck1PflToggle => Action::Deck2PflToggle,
        Action::Deck1GainIncrease => Action::Deck2GainIncrease,
        Action::Deck1GainDecrease => Action::Deck2GainDecrease,
        Action::Deck1PitchUp => Action::Deck2PitchUp,
        Action::Deck1PitchDown => Action::Deck2PitchDown,
        Action::Deck2PlayPause => Action::Deck1PlayPause,
        Action::Deck2OpenBrowser => Action::Deck1OpenBrowser,
        Action::Deck2LevelUp => Action::Deck1LevelUp,
        Action::Deck2LevelDown => Action::Deck1LevelDown,
        Action::Deck2LevelMax => Action::Deck1LevelMax,
        Action::Deck2LevelMin => Action::Deck1LevelMin,
        Action::Deck2FilterIncrease => Action::Deck1FilterIncrease,
        Action::Deck2FilterDecrease => Action::Deck1FilterDecrease,
        Action::Deck2FilterReset => Action::Deck1FilterReset,
        Action::Deck2FilterSlopeIncrease => Action::Deck1FilterSlopeIncrease,
        Action::Deck2FilterSlopeDecrease => Action::Deck1FilterSlopeDecrease,
        Action::Deck2BpmTap => Action::Deck1BpmTap,
        Action::Deck2MetronomeToggle => Action::Deck1MetronomeToggle,
        Action::Deck2RedetectBpm => Action::Deck1RedetectBpm,
        Action::Deck2BpmIncrease => Action::Deck1BpmIncrease,
        Action::Deck2BpmDecrease => Action::Deck1BpmDecrease,
        Action::Deck2BaseBpmIncrease => Action::Deck1BaseBpmIncrease,
        Action::Deck2BaseBpmDecrease => Action::Deck1BaseBpmDecrease,
        Action::Deck2TempoReset => Action::Deck1TempoReset,
        Action::Deck2NudgeForward => Action::Deck1NudgeForward,
        Action::Deck2NudgeBackward => Action::Deck1NudgeBackward,
        Action::Deck2OffsetIncrease => Action::Deck1OffsetIncrease,
        Action::Deck2OffsetDecrease => Action::Deck1OffsetDecrease,
        Action::Deck2JumpForward4b => Action::Deck1JumpForward4b,
        Action::Deck2JumpBackward4b => Action::Deck1JumpBackward4b,
        Action::Deck2JumpForward8b => Action::Deck1JumpForward8b,
        Action::Deck2JumpBackward8b => Action::Deck1JumpBackward8b,
        Action::Deck2JumpForward1bt => Action::Deck1JumpForward1bt,
        Action::Deck2JumpBackward1bt => Action::Deck1JumpBackward1bt,
        Action::Deck2JumpForward4bt => Action::Deck1JumpForward4bt,
        Action::Deck2JumpBackward4bt => Action::Deck1JumpBackward4bt,
        Action::Deck2Cue => Action::Deck1Cue,
        Action::Deck2CuePlay => Action::Deck1CuePlay,
        Action::Deck2PflToggle => Action::Deck1PflToggle,
        Action::Deck2GainIncrease => Action::Deck1GainIncrease,
        Action::Deck2GainDecrease => Action::Deck1GainDecrease,
        Action::Deck2PitchUp => Action::Deck1PitchUp,
        Action::Deck2PitchDown => Action::Deck1PitchDown,
        _ => a,
    }
}

/// The action a config name stands for, if any.
pub open spec fn action_named(name: Seq<char>) -> Option<Action> {
    if name == "quit"@ {
        Some(Action::Quit)
    } else if name == "help"@ {
        Some(Action::Help)
    } else if name == "terminal_refresh"@ {
        Some(Action::TerminalRefresh)
    } else if name == "vinyl_mode_toggle"@ {
        Some(Action::VinylModeToggle)
    } else if name == "zoom_in"@ {
        Some(Action::ZoomIn)
    } else if name == "zoom_out"@ {
        Some(Action::ZoomOut)
    } else if name == "height_increase"@ {
        Some(Action::HeightIncrease)
    } else if name == "height_decrease"@ {
        Some(Action::HeightDecrease)
    } else if name == "latency_increase"@ {
        Some(Action::LatencyIncrease)
    } else if name == "latency_decrease"@ {
        Some(Action::LatencyDecrease)
    } else if name == "palette_cycle"@ {
        Some(Action::PaletteCycle)
    } else if name == "nudge_mode_toggle"@ {
        Some(Action::NudgeModeToggle)
    } else if name == "art_cycle"@ {
        Some(Action::ArtCycle)
    } else if name == "deck1_play_pause"@ {
        Some(Action::Deck1PlayPause)
    } else if name == "deck1_open_browser"@ {
        Some(Action::Deck1OpenBrowser)
    } else if name == "deck1_level_up"@ {
        Some(Action::Deck1LevelUp)
    } else if name == "deck1_level_down"@ {
        Some(Action::Deck1LevelDown)
    } else if name == "deck1_level_max"@ {
        Some(Action::Deck1LevelMax)
    } else if name == "deck1_level_min"@ {
        Some(Action::Deck1LevelMin)
    } else if name == "deck1_filter_increase"@ {
        Some(Action::Deck1FilterIncrease)
    } else if name == "deck1_filter_decrease"@ {
        Some(Action::Deck1FilterDecrease)
    } else if name == "deck1_filter_reset"@ {
        Some(Action::Deck1FilterReset)
    } else if name == "deck1_filter_slope_increase"@ {
        Some(Action::Deck1FilterSlopeIncrease)
    } else if name == "deck1_filter_slope_decrease"@ {
        Some(Action::Deck1FilterSlopeDecrease)
    } else if name == "deck1_bpm_tap"@ {
        Some(Action::Deck1BpmTap)
    } else if name == "deck1_metronome"@ {
        Some(Action::Deck1MetronomeToggle)
    } else if name == "deck1_redetect_bpm"@ {
        Some(Action::Deck1RedetectBpm)
    } else if name == "deck1_bpm_increase"@ {
        Some(Action::Deck1BpmIncrease)
    } else if name == "deck1_bpm_decrease"@ {
        Some(Action::Deck1BpmDecrease)
    } else if name == "deck1_base_bpm_increase"@ {
        Some(Action::Deck1BaseBpmIncrease)
    } else if name == "deck1_base_bpm_decrease"@ {
        Some(Action::Deck1BaseBpmDecrease)
    } else if name == "deck1_tempo_reset"@ {
        Some(Action::Deck1TempoReset)
    } else if name == "deck1_nudge_forward"@ {
        Some(Action::Deck1NudgeForward)
    } else if name == "deck1_nudge_backward"@ {
        Some(Action::Deck1NudgeBackward)
    } else if name == "deck1_offset_increase"@ {
        Some(Action::Deck1OffsetIncrease)
    } else if name == "deck1_offset_decrease"@ {
        Some(Action::Deck1OffsetDecrease)
    } else if name == "deck1_jump_forward_4b"@ {
        Some(Action::Deck1JumpForward4b)
    } else if name == "deck1_jump_backward_4b"@ {
        Some(Action::Deck1JumpBackward4b)
    } else if name == "deck1_jump_forward_8b"@ {
        Some(Action::Deck1JumpForward8b)
    } else if name == "deck1_jump_backward_8b"@ {
        Some(Action::Deck1JumpBackward8b)
    } else if name == "deck1_jump_forward_1bt"@ {
        Some(Action::Deck1JumpForward1bt)
    } else if name == "deck1_jump_backward_1bt"@ {
        Some(Action::Deck1JumpBackward1bt)
    } else if name == "deck1_jump_forward_4bt"@ {
        Some(Action::Deck1JumpForward4bt)
    } else if name == "deck1_jump_backward_4bt"@ {
        Some(Action::Deck1JumpBackward4bt)
    } else if name == "deck1_cue"@ {
        Some(Action::Deck1Cue)
    } else if name == "deck1_cue_play"@ {
        Some(Action::Deck1CuePlay)
    } else if name == "deck1_pfl_toggle"@ {
        Some(Action::Deck1PflToggle)
    } else if name == "deck1_gain_increase"@ {
        Some(Action::Deck1GainIncrease)
    } else if name == "deck1_gain_decrease"@ {
        Some(Action::Deck1GainDecrease)
    } else if name == "deck1_pitch_up"@ {
        Some(Action::Deck1PitchUp)
    } else if name == "deck1_pitch_down"@ {
        Some(Action::Deck1PitchDown)
    } else if name == "deck2_play_pause"@ {
        Some(Action::Deck2PlayPause)
    } else if name == "deck2_open_browser"@ {
        Some(Action::Deck2OpenBrowser)
    } else if name == "deck2_level_up"@ {
        Some(Action::Deck2LevelUp)
    } else if name == "deck2_level_down"@ {
        Some(Action::Deck2LevelDown)
    } else if name == "deck2_level_max"@ {
        Some(Action::Deck2LevelMax)
    } else if name == "deck2_level_min"@ {
        Some(Action::Deck2LevelMin)
    } else if name == "deck2_filter_increase"@ {
        Some(Action::Deck2FilterIncrease)
    } else if name == "deck2_filter_decrease"@ {
        Some(Action::Deck2FilterDecrease)
    } else if name == "deck2_filter_reset"@ {
        Some(Action::Deck2FilterReset)
    } else if name == "deck2_filter_slope_increase"@ {
        Some(Action::Deck2FilterSlopeIncrease)
    } else if name == "deck2_filter_slope_decrease"@ {
        Some(Action::Deck2FilterSlopeDecrease)
    } else if name == "deck2_bpm_tap"@ {
        Some(Action::Deck2BpmTap)
    } else if name == "deck2_metronome"@ {
        Some(Action::Deck2MetronomeToggle)
    } else if name == "deck2_redetect_bpm"@ {
        Some(Action::Deck2RedetectBpm)
    } else if name == "deck2_bpm_increase"@ {
        Some(Action::Deck2BpmIncrease)
    } else if name == "deck2_bpm_decrease"@ {
        Some(Action::Deck2BpmDecrease)
    } else if name == "deck2_base_bpm_increase"@ {
        Some(Action::Deck2BaseBpmIncrease)
    } else if name == "deck2_base_bpm_decrease"@ {
        Some(Action::Deck2BaseBpmDecrease)
    } else if name == "deck2_tempo_reset"@ {
        Some(Action::Deck2TempoReset)
    } else if name == "deck2_nudge_forward"@ {
        Some(Action::Deck2NudgeForward)
    } else if name == "deck2_nudge_backward"@ {
        Some(Action::Deck2NudgeBackward)
    } else if name == "deck2_offset_increase"@ {
        Some(Action::Deck2OffsetIncrease)
    } else if name == "deck2_offset_decrease"@ {
        Some(Action::Deck2OffsetDecrease)
    } else if name == "deck2_jump_forward_4b"@ {
        Some(Action::Deck2JumpForward4b)
    } else if name == "deck2_jump_backward_4b"@ {
        Some(Action::Deck2JumpBackward4b)
    } else if name == "deck2_jump_forward_8b"@ {
        Some(Action::Deck2JumpForward8b)
    } else if name == "deck2_jump_backward_8b"@ {
        Some(Action::Deck2JumpBackward8b)
    } else if name == "deck2_jump_forward_1bt"@ {
        Some(Action::Deck2JumpForward1bt)
    } else if name == "deck2_jump_backward_1bt"@ {
        Some(Action::Deck2JumpBackward1bt)
    } else if name == "deck2_jump_forward_4bt"@ {
        Some(Action::Deck2JumpForward4bt)
    } else if name == "deck2_jump_backward_4bt"@ {
        Some(Action::Deck2JumpBackward4bt)
    } else if name == "deck2_cue"@ {
        Some(Action::Deck2Cue)
    } else if name == "deck2_cue_play"@ {
        Some(Action::Deck2CuePlay)
    } else if name == "deck2_pfl_toggle"@ {
        Some(Action::Deck2PflToggle)
    } else if name == "deck2_gain_increase"@ {
        Some(Action::Deck2GainIncrease)
    } else if name == "deck2_gain_decrease"@ {
        Some(Action::Deck2GainDecrease)
    } else if name == "deck2_pitch_up"@ {
        Some(Action::Deck2PitchUp)
    } else if name == "deck2_pitch_down"@ {
        Some(Action::Deck2PitchDown)
    } else {
        None
    }
}

/// The config name of each action.
spec fn config_name(a: Action) -> Seq<char> {
    match a {
        Action::Quit => "quit"@,
        Action::Help => "help"@,
        Action::TerminalRefresh => "terminal_refresh"@,
        Action::VinylModeToggle => "vinyl_mode_toggle"@,
        Action::ZoomIn => "zoom_in"@,
        Action::ZoomOut => "zoom_out"@,
        Action::HeightIncrease => "height_increase"@,
        Action::HeightDecrease => "height_decrease"@,
        Action::LatencyIncrease => "latency_increase"@,
        Action::LatencyDecrease => "latency_decrease"@,
        Action::PaletteCycle => "palette_cycle"@,
        Action::NudgeModeToggle => "nudge_mode_toggle"@,
        Action::ArtCycle => "art_cycle"@,
        Action::Deck1PlayPause => "deck1_play_pause"@,
        Action::Deck1OpenBrowser => "deck1_open_browser"@,
        Action::Deck1LevelUp => "deck1_level_up"@,
        Action::Deck1LevelDown => "deck1_level_down"@,
        Action::Deck1LevelMax => "deck1_level_max"@,
        Action::Deck1LevelMin => "deck1_level_min"@,
        Action::Deck1FilterIncrease => "deck1_filter_increase"@,
        Action::Deck1FilterDecrease => "deck1_filter_decrease"@,
        Action::Deck1FilterReset => "deck1_filter_reset"@,
        Action::Deck1FilterSlopeIncrease => "deck1_filter_slope_increase"@,
        Action::Deck1FilterSlopeDecrease => "deck1_filter_slope_decrease"@,
        Action::Deck1BpmTap => "deck1_bpm_tap"@,
        Action::Deck1MetronomeToggle => "deck1_metronome"@,
        Action::Deck1RedetectBpm => "deck1_redetect_bpm"@,
        Action::Deck1BpmIncrease => "deck1_bpm_increase"@,
        Action::Deck1BpmDecrease => "deck1_bpm_decrease"@,
        Action::Deck1BaseBpmIncrease => "deck1_base_bpm_increase"@,
        Action::Deck1BaseBpmDecrease => "deck1_base_bpm_decrease"@,
        Action::Deck1TempoReset => "deck1_tempo_reset"@,
        Action::Deck1NudgeForward => "deck1_nudge_forward"@,
        Action::Deck1NudgeBackward => "deck1_nudge_backward"@,
        Action::Deck1OffsetIncrease => "deck1_offset_increase"@,
        Action::Deck1OffsetDecrease => "deck1_offset_decrease"@,
        Action::Deck1JumpForward4b => "deck1_jump_forward_4b"@,
        Action::Deck1JumpBackward4b => "deck1_jump_backward_4b"@,
        Action::Deck1JumpForward8b => "deck1_jump_forward_8b"@,
        Action::Deck1JumpBackward8b => "deck1_jump_backward_8b"@,
        Action::Deck1JumpForward1bt => "deck1_jump_forward_1bt"@,
        Action::Deck1JumpBackward1bt => "deck1_jump_backward_1bt"@,
        Action::Deck1JumpForward4bt => "deck1_jump_forward_4bt"@,
        Action::Deck1JumpBackward4bt => "deck1_jump_backward_4bt"@,
        Action::Deck1Cue => "deck1_cue"@,
        Action::Deck1CuePlay => "deck1_cue_play"@,
        Action::Deck1PflToggle => "deck1_pfl_toggle"@,
        Action::Deck1GainIncrease => "deck1_gain_increase"@,
        Action::Deck1GainDecrease => "deck1_gain_decrease"@,
        Action::Deck1PitchUp => "deck1_pitch_up"@,
        Action::Deck1PitchDown => "deck1_pitch_down"@,
        Action::Deck2PlayPause => "deck2_play_pause"@,
        Action::Deck2OpenBrowser => "deck2_open_browser"@,
        Action::Deck2LevelUp => "deck2_level_up"@,
        Action::Deck2LevelDown => "deck2_level_down"@,
        Action::Deck2LevelMax => "deck2_level_max"@,
        Action::Deck2LevelMin => "deck2_level_min"@,
        Action::Deck2FilterIncrease => "deck2_filter_increase"@,
        Action::Deck2FilterDecrease => "deck2_filter_decrease"@,
        Action::Deck2FilterReset => "deck2_filter_reset"@,
        Action::Deck2FilterSlopeIncrease => "deck2_filter_slope_increase"@,
        Action::Deck2FilterSlopeDecrease => "deck2_filter_slope_decrease"@,
        Action::Deck2BpmTap => "deck2_bpm_tap"@,
        Action::Deck2MetronomeToggle => "deck2_metronome"@,
        Action::Deck2RedetectBpm => "deck2_redetect_bpm"@,
        Action::Deck2BpmIncrease => "deck2_bpm_increase"@,
        Action::Deck2BpmDecrease => "deck2_bpm_decrease"@,
        Action::Deck2BaseBpmIncrease => "deck2_base_bpm_increase"@,
        Action::Deck2BaseBpmDecrease => "deck2_base_bpm_decrease"@,
        Action::Deck2TempoReset => "deck2_tempo_reset"@,
        Action::Deck2NudgeForward => "deck2_nudge_forward"@,
        Action::Deck2NudgeBackward => "deck2_nudge_backward"@,
        Action::Deck2OffsetIncrease => "deck2_offset_increase"@,
        Action::Deck2OffsetDecrease => "deck2_offset_decrease"@,
        Action::Deck2JumpForward4b => "deck2_jump_forward_4b"@,
        Action::Deck2JumpBackward4b => "deck2_jump_backward_4b"@,
        Action::Deck2JumpForward8b => "deck2_jump_forward_8b"@,
        Action::Deck2JumpBackward8b => "deck2_jump_backward_8b"@,
        Action::Deck2JumpForward1bt => "deck2_jump_forward_1bt"@,
        Action::Deck2JumpBackward1bt => "deck2_jump_backward_1bt"@,
        Action::Deck2JumpForward4bt => "deck2_jump_forward_4bt"@,
        Action::Deck2JumpBackward4bt => "deck2_jump_backward_4bt"@,
        Action::Deck2Cue => "deck2_cue"@,
        Action::Deck2CuePlay => "deck2_cue_play"@,
        Action::Deck2PflToggle => "deck2_pfl_toggle"@,
        Action::Deck2GainIncrease => "deck2_gain_increase"@,
        Action::Deck2GainDecrease => "deck2_gain_decrease"@,
        Action::Deck2PitchUp => "deck2_pitch_up"@,
        Action::Deck2PitchDown => "deck2_pitch_down"@,
    }
}

proof fn lemma_named_action_has_its_name(n: Seq<char>)
    ensures
        action_named(n) matches Some(a) ==> n == config_name(a),
{
}

/// Different config names never stand for the same action.
pub proof fn law_action_names_distinct(n1: Seq<char>, n2: Seq<char>)
    ensures
        action_named(n1) is Some && action_named(n1) == action_named(n2) ==> n1 == n2,
{
    lemma_named_action_has_its_name(n1);
    lemma_named_action_has_its_name(n2);
}

/// An action of a deck is named after that deck: its config name starts
/// with `deck1_` for deck 1 and `deck2_` for deck 2; the other actions' names
/// start with neither.
pub proof fn law_action_name_says_deck(n: Seq<char>)
    ensures
        action_named(n) matches Some(a) ==> match action_deck(a) {
            Some(d) => n.len() > 6 && n.subrange(0, 6) == seq!['d', 'e', 'c', 'k', (if d == 0 { '1' } else { '2' }), '_'],
            None => n.len() < 6 || n.subrange(0, 4) != seq!['d', 'e', 'c', 'k'],
        },
{
    lemma_named_action_has_its_name(n);
    if let Some(a) = action_named(n) {
        match a {
            Action::Quit => {
                reveal_strlit("quit");
                if n.len() >= 6 { assert(n[0] != 'd' || n[1] != 'e' || n[2] != 'c' || n[3] != 'k'); }
            },
            Action::Help => {
                reveal_strlit("help");
                if n.len() >= 6 { assert(n[0] != 'd' || n[1] != 'e' || n[2] != 'c' || n[3] != 'k'); }
            },
            Action::TerminalRefresh => {
                reveal_strlit("terminal_refresh");
                if n.len() >= 6 { assert(n[0] != 'd' || n[1] != 'e' || n[2] != 'c' || n[3] != 'k'); }
            },
            Action::VinylModeToggle => {
                reveal_strlit("vinyl_mode_toggle");
                if n.len() >= 6 { assert(n[0] != 'd' || n[1] != 'e' || n[2] != 'c' || n[3] != 'k'); }
            },
            Action::ZoomIn => {
                reveal_strlit("zoom_in");
                if n.len() >= 6 { assert(n[0] != 'd' || n[1] != 'e' || n[2] != 'c' || n[3] != 'k'); }
            },
            Action::ZoomOut => {
                reveal_strlit("zoom_out");
                if n.len() >= 6 { assert(n[0] != 'd' || n[1] != 'e' || n[2] != 'c' || n[3] != 'k'); }
            },
            Action::HeightIncrease => {
                reveal_strlit("height_increase");
                if n.len() >= 6 { assert(n[0] != 'd' || n[1] != 'e' || n[2] != 'c' || n[3] != 'k'); }
            },
            Action::HeightDecrease => {
                reveal_strlit("height_decrease");
                if n.len() >= 6 { assert(n[0] != 'd' || n[1] != 'e' || n[2] != 'c' || n[3] != 'k'); }
            },
            Action::LatencyIncrease => {
                reveal_strlit("latency_increase");
                if n.len() >= 6 { assert(n[0] != 'd' || n[1] != 'e' || n[2] != 'c' || n[3] != 'k'); }
            },
            Action::LatencyDecrease => {
                reveal_strlit("latency_decrease");
                if n.len() >= 6 { assert(n[0] != 'd' || n[1] != 'e' || n[2] != 'c' || n[3] != 'k'); }
            },
            Action::PaletteCycle => {
                reveal_strlit("palette_cycle");
                if n.len() >= 6 { assert(n[0] != 'd' || n[1] != 'e' || n[2] != 'c' || n[3] != 'k'); }
            },
            Action::NudgeModeToggle => {
                reveal_strlit("nudge_mode_toggle");
                if n.len() >= 6 { assert(n[0] != 'd' || n[1] != 'e' || n[2] != 'c' || n[3] != 'k'); }
            },
            Action::ArtCycle => {
                reveal_strlit("art_cycle");
                if n.len() >= 6 { assert(n[0] != 'd' || n[1] != 'e' || n[2] != 'c' || n[3] != 'k'); }
            },
            Action::Deck1PlayPause => {
                reveal_strlit("deck1_play_pause");
                assert(n.subrange(0, 6) =~= seq!['d', 'e', 'c', 'k', '1', '_']);
            },
            Action::Deck1OpenBrowser => {
                reveal_strlit("deck1_open_browser");
                assert(n.subrange(0, 6) =~= seq!['d', 'e', 'c', 'k', '1', '_']);
            },
            Action::Deck1LevelUp => {
                reveal_strlit("deck1_level_up");
                assert(n.subrange(0, 6) =~= seq!['d', 'e', 'c', 'k', '1', '_']);
            },
            Action::Deck1LevelDown => {
                reveal_strlit("deck1_level_down");
                assert(n.subrange(0, 6) =~= seq!['d', 'e', 'c', 'k', '1', '_']);
            },
            Action::Deck1LevelMax => {
                reveal_strlit("deck1_level_max");
                assert(n.subrange(0, 6) =~= seq!['d', 'e', 'c', 'k', '1', '_']);
            },
            Action::Deck1LevelMin => {
                reveal_strlit("deck1_level_min");
                assert(n.subrange(0, 6) =~= seq!['d', 'e', 'c', 'k', '1', '_']);
            },
            Action::Deck1FilterIncrease => {
                reveal_strlit("deck1_filter_increase");
                assert(n.subrange(0, 6) =~= seq!['d', 'e', 'c', 'k', '1', '_']);
            },
            Action::Deck1FilterDecrease => {
                reveal_strlit("deck1_filter_decrease");
                assert(n.subrange(0, 6) =~= seq!['d', 'e', 'c', 'k', '1', '_']);
            },
            Action::Deck1FilterReset => {
                reveal_strlit("deck1_filter_reset");
                assert(n.subrange(0, 6) =~= seq!['d', 'e', 'c', 'k', '1', '_']);
            },
            Action::Deck1FilterSlopeIncrease => {
                reveal_strlit("deck1_filter_slope_increase");
                assert(n.subrange(0, 6) =~= seq!['d', 'e', 'c', 'k', '1', '_']);
            },
            Action::Deck1FilterSlopeDecrease => {
                reveal_strlit("deck1_filter_slope_decrease");
                assert(n.subrange(0, 6) =~= seq!['d', 'e', 'c', 'k', '1', '_']);
            },
            Action::Deck1BpmTap => {
                reveal_strlit("deck1_bpm_tap");
                assert(n.subrange(0, 6) =~= seq!['d', 'e', 'c', 'k', '1', '_']);
            },
            Action::Deck1MetronomeToggle => {
                reveal_strlit("deck1_metronome");
                assert(n.subrange(0, 6) =~= seq!['d', 'e', 'c', 'k', '1', '_']);
            },
            Action::Deck1RedetectBpm => {
                reveal_strlit("deck1_redetect_bpm");
                assert(n.subrange(0, 6) =~= seq!['d', 'e', 'c', 'k', '1', '_']);
            },
            Action::Deck1BpmIncrease => {
                reveal_strlit("deck1_bpm_increase");
                assert(n.subrange(0, 6) =~= seq!['d', 'e', 'c', 'k', '1', '_']);
            },
            Action::Deck1BpmDecrease => {
                reveal_strlit("deck1_bpm_decrease");
                assert(n.subrange(0, 6) =~= seq!['d', 'e', 'c', 'k', '1', '_']);
            },
            Action::Deck1BaseBpmIncrease => {
                reveal_strlit("deck1_base_bpm_increase");
                assert(n.subrange(0, 6) =~= seq!['d', 'e', 'c', 'k', '1', '_']);
            },
            Action::Deck1BaseBpmDecrease => {
                reveal_strlit("deck1_base_bpm_decrease");
                assert(n.subrange(0, 6) =~= seq!['d', 'e', 'c', 'k', '1', '_']);
            },
            Action::Deck1TempoReset => {
                reveal_strlit("deck1_tempo_reset");
                assert(n.subrange(0, 6) =~= seq!['d', 'e', 'c', 'k', '1', '_']);
            },
            Action::Deck1NudgeForward => {
                reveal_strlit("deck1_nudge_forward");
                assert(n.subrange(0, 6) =~= seq!['d', 'e', 'c', 'k', '1', '_']);
            },
            Action::Deck1NudgeBackward => {
                reveal_strlit("deck1_nudge_backward");
                assert(n.subrange(0, 6) =~= seq!['d', 'e', 'c', 'k', '1', '_']);
            },
            Action::Deck1OffsetIncrease => {
                reveal_strlit("deck1_offset_increase");
                assert(n.subrange(0, 6) =~= seq!['d', 'e', 'c', 'k', '1', '_']);
            },
            Action::Deck1OffsetDecrease => {
                reveal_strlit("deck1_offset_decrease");
                assert(n.subrange(0, 6) =~= seq!['d', 'e', 'c', 'k', '1', '_']);
            },
            Action::Deck1JumpForward4b => {
                reveal_strlit("deck1_jump_forward_4b");
                assert(n.subrange(0, 6) =~= seq!['d', 'e', 'c', 'k', '1', '_']);
            },
            Action::Deck1JumpBackward4b => {
                reveal_strlit("deck1_jump_backward_4b");
                assert(n.subrange(0, 6) =~= seq!['d', 'e', 'c', 'k', '1', '_']);
            },
            Action::Deck1JumpForward8b => {
                reveal_strlit("deck1_jump_forward_8b");
                assert(n.subrange(0, 6) =~= seq!['d', 'e', 'c', 'k', '1', '_']);
            },
            Action::Deck1JumpBackward8b => {
                reveal_strlit("deck1_jump_backward_8b");
                assert(n.subrange(0, 6) =~= seq!['d', 'e', 'c', 'k', '1', '_']);
            },
            Action::Deck1JumpForward1bt => {
                reveal_strlit("deck1_jump_forward_1bt");
                assert(n.subrange(0, 6) =~= seq!['d', 'e', 'c', 'k', '1', '_']);
            },
            Action::Deck1JumpBackward1bt => {
                reveal_strlit("deck1_jump_backward_1bt");
                assert(n.subrange(0, 6) =~= seq!['d', 'e', 'c', 'k', '1', '_']);
            },
            Action::Deck1JumpForward4bt => {
                reveal_strlit("deck1_jump_forward_4bt");
                assert(n.subrange(0, 6) =~= seq!['d', 'e', 'c', 'k', '1', '_']);
            },
            Action::Deck1JumpBackward4bt => {
                reveal_strlit("deck1_jump_backward_4bt");
                assert(n.subrange(0, 6) =~= seq!['d', 'e', 'c', 'k', '1', '_']);
            },
            Action::Deck1Cue => {
                reveal_strlit("deck1_cue");
                assert(n.subrange(0, 6) =~= seq!['d', 'e', 'c', 'k', '1', '_']);
            },
            Action::Deck1CuePlay => {
                reveal_strlit("deck1_cue_play");
                assert(n.subrange(0, 6) =~= seq!['d', 'e', 'c', 'k', '1', '_']);
            },
            Action::Deck1PflToggle => {
                reveal_strlit("deck1_pfl_toggle");
                assert(n.subrange(0, 6) =~= seq!['d', 'e', 'c', 'k', '1', '_']);
            },
            Action::Deck1GainIncrease => {
                reveal_strlit("deck1_gain_increase");
                assert(n.subrange(0, 6) =~= seq!['d', 'e', 'c', 'k', '1', '_']);
            },
            Action::Deck1GainDecrease => {
                reveal_strlit("deck1_gain_decrease");
                assert(n.subrange(0, 6) =~= seq!['d', 'e', 'c', 'k', '1', '_']);
            },
            Action::Deck1PitchUp => {
                reveal_strlit("deck1_pitch_up");
                assert(n.subrange(0, 6) =~= seq!['d', 'e', 'c', 'k', '1', '_']);
            },
            Action::Deck1PitchDown => {
                reveal_strlit("deck1_pitch_down");
                assert(n.subrange(0, 6) =~= seq!['d', 'e', 'c', 'k', '1', '_']);
            },
            Action::Deck2PlayPause => {
                reveal_strlit("deck2_play_pause");
                assert(n.subrange(0, 6) =~= seq!['d', 'e', 'c', 'k', '2', '_']);
            },
            Action::Deck2OpenBrowser => {
                reveal_strlit("deck2_open_browser");
                assert(n.subrange(0, 6) =~= seq!['d', 'e', 'c', 'k', '2', '_']);
            },
            Action::Deck2LevelUp => {
                reveal_strlit("deck2_level_up");
                assert(n.subrange(0, 6) =~= seq!['d', 'e', 'c', 'k', '2', '_']);
            },
            Action::Deck2LevelDown => {
                reveal_strlit("deck2_level_down");
                assert(n.subrange(0, 6) =~= seq!['d', 'e', 'c', 'k', '2', '_']);
            },
            Action::Deck2LevelMax => {
                reveal_strlit("deck2_level_max");
                assert(n.subrange(0, 6) =~= seq!['d', 'e', 'c', 'k', '2', '_']);
            },
            Action::Deck2LevelMin => {
                reveal_strlit("deck2_level_min");
                assert(n.subrange(0, 6) =~= seq!['d', 'e', 'c', 'k', '2', '_']);
            },
            Action::Deck2FilterIncrease => {
                reveal_strlit("deck2_filter_increase");
                assert(n.subrange(0, 6) =~= seq!['d', 'e', 'c', 'k', '2', '_']);
            },
            Action::Deck2FilterDecrease => {
                reveal_strlit("deck2_filter_decrease");
                assert(n.subrange(0, 6) =~= seq!['d', 'e', 'c', 'k', '2', '_']);
            },
            Action::Deck2FilterReset => {
                reveal_strlit("deck2_filter_reset");
                assert(n.subrange(0, 6) =~= seq!['d', 'e', 'c', 'k', '2', '_']);
            },
            Action::Deck2FilterSlopeIncrease => {
                reveal_strlit("deck2_filter_slope_increase");
                assert(n.subrange(0, 6) =~= seq!['d', 'e', 'c', 'k', '2', '_']);
            },
            Action::Deck2FilterSlopeDecrease => {
                reveal_strlit("deck2_filter_slope_decrease");
                assert(n.subrange(0, 6) =~= seq!['d', 'e', 'c', 'k', '2', '_']);
            },
            Action::Deck2BpmTap => {
                reveal_strlit("deck2_bpm_tap");
                assert(n.subrange(0, 6) =~= seq!['d', 'e', 'c', 'k', '2', '_']);
            },
            Action::Deck2MetronomeToggle => {
                reveal_strlit("deck2_metronome");
                assert(n.subrange(0, 6) =~= seq!['d', 'e', 'c', 'k', '2', '_']);
            },
            Action::Deck2RedetectBpm => {
                reveal_strlit("deck2_redetect_bpm");
                assert(n.subrange(0, 6) =~= seq!['d', 'e', 'c', 'k', '2', '_']);
            },
            Action::Deck2BpmIncrease => {
                reveal_strlit("deck2_bpm_increase");
                assert(n.subrange(0, 6) =~= seq!['d', 'e', 'c', 'k', '2', '_']);
            },
            Action::Deck2BpmDecrease => {
                reveal_strlit("deck2_bpm_decrease");
                assert(n.subrange(0, 6) =~= seq!['d', 'e', 'c', 'k', '2', '_']);
            },
            Action::Deck2BaseBpmIncrease => {
                reveal_strlit("deck2_base_bpm_increase");
                assert(n.subrange(0, 6) =~= seq!['d', 'e', 'c', 'k', '2', '_']);
            },
            Action::Deck2BaseBpmDecrease => {
                reveal_strlit("deck2_base_bpm_decrease");
                assert(n.subrange(0, 6) =~= seq!['d', 'e', 'c', 'k', '2', '_']);
            },
            Action::Deck2TempoReset => {
                reveal_strlit("deck2_tempo_reset");
                assert(n.subrange(0, 6) =~= seq!['d', 'e', 'c', 'k', '2', '_']);
            },
            Action::Deck2NudgeForward => {
                reveal_strlit("deck2_nudge_forward");
                assert(n.subrange(0, 6) =~= seq!['d', 'e', 'c', 'k', '2', '_']);
            },
            Action::Deck2NudgeBackward => {
                reveal_strlit("deck2_nudge_backward");
                assert(n.subrange(0, 6) =~= seq!['d', 'e', 'c', 'k', '2', '_']);
            },
            Action::Deck2OffsetIncrease => {
                reveal_strlit("deck2_offset_increase");
                assert(n.subrange(0, 6) =~= seq!['d', 'e', 'c', 'k', '2', '_']);
            },
            Action::Deck2OffsetDecrease => {
                reveal_strlit("deck2_offset_decrease");
                assert(n.subrange(0, 6) =~= seq!['d', 'e', 'c', 'k', '2', '_']);
            },
            Action::Deck2JumpForward4b => {
                reveal_strlit("deck2_jump_forward_4b");
                assert(n.subrange(0, 6) =~= seq!['d', 'e', 'c', 'k', '2', '_']);
            },
            Action::Deck2JumpBackward4b => {
                reveal_strlit("deck2_jump_backward_4b");
                assert(n.subrange(0, 6) =~= seq!['d', 'e', 'c', 'k', '2', '_']);
            },
            Action::Deck2JumpForward8b => {
                reveal_strlit("deck2_jump_forward_8b");
                assert(n.subrange(0, 6) =~= seq!['d', 'e', 'c', 'k', '2', '_']);
            },
            Action::Deck2JumpBackward8b => {
                reveal_strlit("deck2_jump_backward_8b");
                assert(n.subrange(0, 6) =~= seq!['d', 'e', 'c', 'k', '2', '_']);
            },
            Action::Deck2JumpForward1bt => {
                reveal_strlit("deck2_jump_forward_1bt");
                assert(n.subrange(0, 6) =~= seq!['d', 'e', 'c', 'k', '2', '_']);
            },
            Action::Deck2JumpBackward1bt => {
                reveal_strlit("deck2_jump_backward_1bt");
                assert(n.subrange(0, 6) =~= seq!['d', 'e', 'c', 'k', '2', '_']);
            },
            Action::Deck2JumpForward4bt => {
                reveal_strlit("deck2_jump_forward_4bt");
                assert(n.subrange(0, 6) =~= seq!['d', 'e', 'c', 'k', '2', '_']);
            },
            Action::Deck2JumpBackward4bt => {
                reveal_strlit("deck2_jump_backward_4bt");
                assert(n.subrange(0, 6) =~= seq!['d', 'e', 'c', 'k', '2', '_']);
            },
            Action::Deck2Cue => {
                reveal_strlit("deck2_cue");
                assert(n.subrange(0, 6) =~= seq!['d', 'e', 'c', 'k', '2', '_']);
            },
            Action::Deck2CuePlay => {
                reveal_strlit("deck2_cue_play");
                assert(n.subrange(0, 6) =~= seq!['d', 'e', 'c', 'k', '2', '_']);
            },
            Action::Deck2PflToggle => {
                reveal_strlit("deck2_pfl_toggle");
                assert(n.subrange(0, 6) =~= seq!['d', 'e', 'c', 'k', '2', '_']);
            },
            Action::Deck2GainIncrease => {
                reveal_strlit("deck2_gain_increase");
                assert(n.subrange(0, 6) =~= seq!['d', 'e', 'c', 'k', '2', '_']);
            },
            Action::Deck2GainDecrease => {
                reveal_strlit("deck2_gain_decrease");
                assert(n.subrange(0, 6) =~= seq!['d', 'e', 'c', 'k', '2', '_']);
            },
            Action::Deck2PitchUp => {
                reveal_strlit("deck2_pitch_up");
                assert(n.subrange(0, 6) =~= seq!['d', 'e', 'c', 'k', '2', '_']);
            },
            Action::Deck2PitchDown => {
                reveal_strlit("deck2_pitch_down");
                assert(n.subrange(0, 6) =~= seq!['d', 'e', 'c', 'k', '2', '_']);
            },
        }
    }
}

/// Looks up the action a config name stands for.
#[verifier::rlimit(50)]
pub fn action_from_name(name: &str) -> (r: Option<Action>)
    ensures
        r == action_named(name@),
{
    if str_eq(name, "quit") {
        Some(Action::Quit)
    } else if str_eq(name, "help") {
        Some(Action::Help)
    } else if str_eq(name, "terminal_refresh") {
        Some(Action::TerminalRefresh)
    } else if str_eq(name, "vinyl_mode_toggle") {
        Some(Action::VinylModeToggle)
    } else if str_eq(name, "zoom_in") {
        Some(Action::ZoomIn)
    } else if str_eq(name, "zoom_out") {
        Some(Action::ZoomOut)
    } else if str_eq(name, "height_increase") {
        Some(Action::HeightIncrease)
    } else if str_eq(name, "height_decrease") {
        Some(Action::HeightDecrease)
    } else if str_eq(name, "latency_increase") {
        Some(Action::LatencyIncrease)
    } else if str_eq(name, "latency_decrease") {
        Some(Action::LatencyDecrease)
    } else if str_eq(name, "palette_cycle") {
        Some(Action::PaletteCycle)
    } else if str_eq(name, "nudge_mode_toggle") {
        Some(Action::NudgeModeToggle)
    } else if str_eq(name, "art_cycle") {
        Some(Action::ArtCycle)
    } else if str_eq(name, "deck1_play_pause") {
        Some(Action::Deck1PlayPause)
    } else if str_eq(name, "deck1_open_browser") {
        Some(Action::Deck1OpenBrowser)
    } else if str_eq(name, "deck1_level_up") {
        Some(Action::Deck1LevelUp)
    } else if str_eq(name, "deck1_level_down") {
        Some(Action::Deck1LevelDown)
    } else if str_eq(name, "deck1_level_max") {
        Some(Action::Deck1LevelMax)
    } else if str_eq(name, "deck1_level_min") {
        Some(Action::Deck1LevelMin)
    } else if str_eq(name, "deck1_filter_increase") {
        Some(Action::Deck1FilterIncrease)
    } else if str_eq(name, "deck1_filter_decrease") {
        Some(Action::Deck1FilterDecrease)
    } else if str_eq(name, "deck1_filter_reset") {
        Some(Action::Deck1FilterReset)
    } else if str_eq(name, "deck1_filter_slope_increase") {
        Some(Action::Deck1FilterSlopeIncrease)
    } else if str_eq(name, "deck1_filter_slope_decrease") {
        Some(Action::Deck1FilterSlopeDecrease)
    } else if str_eq(name, "deck1_bpm_tap") {
        Some(Action::Deck1BpmTap)
    } else if str_eq(name, "deck1_metronome") {
        Some(Action::Deck1MetronomeToggle)
    } else if str_eq(name, "deck1_redetect_bpm") {
        Some(Action::Deck1RedetectBpm)
    } else if str_eq(name, "deck1_bpm_increase") {
        Some(Action::Deck1BpmIncrease)
    } else if str_eq(name, "deck1_bpm_decrease") {
        Some(Action::Deck1BpmDecrease)
    } else if str_eq(name, "deck1_base_bpm_increase") {
        Some(Action::Deck1BaseBpmIncrease)
    } else if str_eq(name, "deck1_base_bpm_decrease") {
        Some(Action::Deck1BaseBpmDecrease)
    } else if str_eq(name, "deck1_tempo_reset") {
        Some(Action::Deck1TempoReset)
    } else if str_eq(name, "deck1_nudge_forward") {
        Some(Action::Deck1NudgeForward)
    } else if str_eq(name, "deck1_nudge_backward") {
        Some(Action::Deck1NudgeBackward)
    } else if str_eq(name, "deck1_offset_increase") {
        Some(Action::Deck1OffsetIncrease)
    } else if str_eq(name, "deck1_offset_decrease") {
        Some(Action::Deck1OffsetDecrease)
    } else if str_eq(name, "deck1_jump_forward_4b") {
        Some(Action::Deck1JumpForward4b)
    } else if str_eq(name, "deck1_jump_backward_4b") {
        Some(Action::Deck1JumpBackward4b)
    } else if str_eq(name, "deck1_jump_forward_8b") {
        Some(Action::Deck1JumpForward8b)
    } else if str_eq(name, "deck1_jump_backward_8b") {
        Some(Action::Deck1JumpBackward8b)
    } else if str_eq(name, "deck1_jump_forward_1bt") {
        Some(Action::Deck1JumpForward1bt)
    } else if str_eq(name, "deck1_jump_backward_1bt") {
        Some(Action::Deck1JumpBackward1bt)
    } else if str_eq(name, "deck1_jump_forward_4bt") {
        Some(Action::Deck1JumpForward4bt)
    } else if str_eq(name, "deck1_jump_backward_4bt") {
        Some(Action::Deck1JumpBackward4bt)
    } else if str_eq(name, "deck1_cue") {
        Some(Action::Deck1Cue)
    } else if str_eq(name, "deck1_cue_play") {
        Some(Action::Deck1CuePlay)
    } else if str_eq(name, "deck1_pfl_toggle") {
        Some(Action::Deck1PflToggle)
    } else if str_eq(name, "deck1_gain_increase") {
        Some(Action::Deck1GainIncrease)
    } else if str_eq(name, "deck1_gain_decrease") {
        Some(Action::Deck1GainDecrease)
    } else if str_eq(name, "deck1_pitch_up") {
        Some(Action::Deck1PitchUp)
    } else if str_eq(name, "deck1_pitch_down") {
        Some(Action::Deck1PitchDown)
    } else if str_eq(name, "deck2_play_pause") {
        Some(Action::Deck2PlayPause)
    } else if str_eq(name, "deck2_open_browser") {
        Some(Action::Deck2OpenBrowser)
    } else if str_eq(name, "deck2_level_up") {
        Some(Action::Deck2LevelUp)
    } else if str_eq(name, "deck2_level_down") {
        Some(Action::Deck2LevelDown)
    } else if str_eq(name, "deck2_level_max") {
        Some(Action::Deck2LevelMax)
    } else if str_eq(name, "deck2_level_min") {
        Some(Action::Deck2LevelMin)
    } else if str_eq(name, "deck2_filter_increase") {
        Some(Action::Deck2FilterIncrease)
    } else if str_eq(name, "deck2_filter_decrease") {
        Some(Action::Deck2FilterDecrease)
    } else if str_eq(name, "deck2_filter_reset") {
        Some(Action::Deck2FilterReset)
    } else if str_eq(name, "deck2_filter_slope_increase") {
        Some(Action::Deck2FilterSlopeIncrease)
    } else if str_eq(name, "deck2_filter_slope_decrease") {
        Some(Action::Deck2FilterSlopeDecrease)
    } else if str_eq(name, "deck2_bpm_tap") {
        Some(Action::Deck2BpmTap)
    } else if str_eq(name, "deck2_metronome") {
        Some(Action::Deck2MetronomeToggle)
    } else if str_eq(name, "deck2_redetect_bpm") {
        Some(Action::Deck2RedetectBpm)
    } else if str_eq(name, "deck2_bpm_increase") {
        Some(Action::Deck2BpmIncrease)
    } else if str_eq(name, "deck2_bpm_decrease") {
        Some(Action::Deck2BpmDecrease)
    } else if str_eq(name, "deck2_base_bpm_increase") {
        Some(Action::Deck2BaseBpmIncrease)
    } else if str_eq(name, "deck2_base_bpm_decrease") {
        Some(Action::Deck2BaseBpmDecrease)
    } else if str_eq(name, "deck2_tempo_reset") {
        Some(Action::Deck2TempoReset)
    } else if str_eq(name, "deck2_nudge_forward") {
        Some(Action::Deck2NudgeForward)
    } else if str_eq(name, "deck2_nudge_backward") {
        Some(Action::Deck2NudgeBackward)
    } else if str_eq(name, "deck2_offset_increase") {
        Some(Action::Deck2OffsetIncrease)
    } else if str_eq(name, "deck2_offset_decrease") {
        Some(Action::Deck2OffsetDecrease)
    } else if str_eq(name, "deck2_jump_forward_4b") {
        Some(Action::Deck2JumpForward4b)
    } else if str_eq(name, "deck2_jump_backward_4b") {
        Some(Action::Deck2JumpBackward4b)
    } else if str_eq(name, "deck2_jump_forward_8b") {
        Some(Action::Deck2JumpForward8b)
    } else if str_eq(name, "deck2_jump_backward_8b") {
        Some(Action::Deck2JumpBackward8b)
    } else if str_eq(name, "deck2_jump_forward_1bt") {
        Some(Action::Deck2JumpForward1bt)
    } else if str_eq(name, "deck2_jump_backward_1bt") {
        Some(Action::Deck2JumpBackward1bt)
    } else if str_eq(name, "deck2_jump_forward_4bt") {
        Some(Action::Deck2JumpForward4bt)
    } else if str_eq(name, "deck2_jump_backward_4bt") {
        Some(Action::Deck2JumpBackward4bt)
    } else if str_eq(name, "deck2_cue") {
        Some(Action::Deck2Cue)
    } else if str_eq(name, "deck2_cue_play") {
        Some(Action::Deck2CuePlay)
    } else if str_eq(name, "deck2_pfl_toggle") {
        Some(Action::Deck2PflToggle)
    } else if str_eq(name, "deck2_gain_increase") {
        Some(Action::Deck2GainIncrease)
    } else if str_eq(name, "deck2_gain_decrease") {
        Some(Action::Deck2GainDecrease)
    } else if str_eq(name, "deck2_pitch_up") {
        Some(Action::Deck2PitchUp)
    } else if str_eq(name, "deck2_pitch_down") {
        Some(Action::Deck2PitchDown)
    } else {
        None
    }
}

/// The key a bare key name stands for: a named key, or any single character.
pub open spec fn bare_key(s: Seq<char>) -> Option<KeyCode> {
    if s == "space"@ {
        Some(KeyCode::Char(' '))
    } else if s == "left"@ {
        Some(KeyCode::Left)
    } else if s == "right"@ {
        Some(KeyCode::Right)
    } else if s == "up"@ {
        Some(KeyCode::Up)
    } else if s == "down"@ {
        Some(KeyCode::Down)
    } else if s == "enter"@ {
        Some(KeyCode::Enter)
    } else if s == "backspace"@ {
        Some(KeyCode::Backspace)
    } else if s == "esc"@ {
        Some(KeyCode::Esc)
    } else if s.len() == 1 {
        Some(KeyCode::Char(s[0]))
    } else {
        None
    }
}

/// Whether `p` is a prefix of `s`.
pub open spec fn has_prefix(s: Seq<char>, p: Seq<char>) -> bool {
    s.len() >= p.len() && s.subrange(0, p.len() as int) == p
}

/// The binding a key string stands for: `space+<key>` is a chord with space
/// held, anything else a bare key.
pub open spec fn key_binding(s: Seq<char>) -> Option<KeyBinding> {
    if has_prefix(s, "space+"@) {
        match bare_key(s.skip("space+"@.len() as int)) {
            Some(k) => Some(KeyBinding::SpaceChord(k)),
            None => None,
        }
    } else {
        match bare_key(s) {
            Some(k) => Some(KeyBinding::Key(k)),
            None => None,
        }
    }
}

fn parse_bare_chars(v: &[char]) -> (r: Option<KeyCode>)
    ensures
        r == bare_key(v@),
{
    if chars_eq(v, &chars_of("space")) {
        Some(KeyCode::Char(' '))
    } else if chars_eq(v, &chars_of("left")) {
        Some(KeyCode::Left)
    } else if chars_eq(v, &chars_of("right")) {
        Some(KeyCode::Right)
    } else if chars_eq(v, &chars_of("up")) {
        Some(KeyCode::Up)
    } else if chars_eq(v, &chars_of("down")) {
        Some(KeyCode::Down)
    } else if chars_eq(v, &chars_of("enter")) {
        Some(KeyCode::Enter)
    } else if chars_eq(v, &chars_of("backspace")) {
        Some(KeyCode::Backspace)
    } else if chars_eq(v, &chars_of("esc")) {
        Some(KeyCode::Esc)
    } else if v.len() == 1 {
        Some(KeyCode::Char(v[0]))
    } else {
        None
    }
}

/// Parses a bare key name (`left`, `esc`, `a`, ...).
pub fn parse_bare_key(s: &str) -> (r: Option<KeyCode>)
    ensures
        r == bare_key(s@),
{
    let v = chars_of(s);
    parse_bare_chars(&v)
}

fn starts_with_chars(v: &[char], p: &[char]) -> (r: bool)
    ensures
        r == has_prefix(v@, p@),
{
    if v.len() < p.len() {
        return false;
    }
    let mut i: usize = 0;
    while i < p.len()
        invariant
            p@.len() <= v@.len(),
            i <= p@.len(),
            forall|k: int| 0 <= k < i ==> v@[k] == p@[k],
        decreases p@.len() - i,
    {
        if v[i] != p[i] {
            assert(v@.subrange(0, p@.len() as int)[i as int] != p@[i as int]);
            return false;
        }
        i += 1;
    }
    assert(v@.subrange(0, p@.len() as int) =~= p@);
    true
}

fn skip_chars(v: &[char], n: usize) -> (r: Vec<char>)
    requires
        n <= v@.len(),
    ensures
        r@ == v@.skip(n as int),
{
    let mut r: Vec<char> = Vec::new();
    let mut i: usize = n;
    while i < v.len()
        invariant
            n <= i <= v@.len(),
            r@ == v@.subrange(n as int, i as int),
        decreases v@.len() - i,
    {
        r.push(v[i]);
        i += 1;
    }
    assert(r@ =~= v@.skip(n as int));
    r
}

/// Parses a key string from the config (`space+<key>` or a bare key).
pub fn parse_key(s: &str) -> (r: Option<KeyBinding>)
    ensures
        r == key_binding(s@),
{
    let v = chars_of(s);
    let p = chars_of("space+");
    if starts_with_chars(&v, &p) {
        let rest = skip_chars(&v, p.len());
        match parse_bare_chars(&rest) {
            Some(k) => Some(KeyBinding::SpaceChord(k)),
            None => None,
        }
    } else {
        match parse_bare_chars(&v) {
            Some(k) => Some(KeyBinding::Key(k)),
            None => None,
        }
    }
}

/// The key bindings: which action each key (or space chord) triggers.
pub struct KeyMap {
    entries: Vec<(KeyBinding, Action)>,
}

impl View for KeyMap {
    type V = Map<KeyBinding, Action>;

    closed spec fn view(&self) -> Map<KeyBinding, Action> {
        assoc_map(self.entries@)
    }
}

impl KeyMap {
    /// A keymap with no bindings.
    pub fn new() -> (m: KeyMap)
        ensures
            m@ == Map::<KeyBinding, Action>::empty(),
    {
        KeyMap { entries: Vec::new() }
    }

    fn last_index_of(&self, b: KeyBinding) -> (r: Option<usize>)
        ensures
            match r {
                Some(i) => is_last_for_key(self.entries@, i as int) && self.entries@[i as int].0 == b,
                None => forall|j: int| 0 <= j < self.entries@.len() ==> #[trigger] self.entries@[j].0 != b,
            },
    {
        let mut i: usize = self.entries.len();
        while i > 0
            invariant
                i <= self.entries@.len(),
                forall|j: int| i <= j < self.entries@.len() ==> #[trigger] self.entries@[j].0 != b,
            decreases i,
        {
            i -= 1;
            if self.entries[i].0 == b {
                return Some(i);
            }
        }
        None
    }

    /// The action bound to `b`, if any.
    pub fn get(&self, b: &KeyBinding) -> (r: Option<Action>)
        ensures
            r == (if self@.dom().contains(*b) {
                Some(self@[*b])
            } else {
                None
            }),
    {
        match self.last_index_of(*b) {
            Some(i) => {
                proof {
                    lemma_assoc_last(self.entries@, i as int);
                }
                Some(self.entries[i].1)
            },
            None => {
                proof {
                    lemma_assoc_absent(self.entries@, *b);
                }
                None
            },
        }
    }

    /// Binds `b` to `a`, replacing any earlier binding of `b`.
    pub fn insert(&mut self, b: KeyBinding, a: Action)
        ensures
            final(self)@ == old(self)@.insert(b, a),
    {
        match self.last_index_of(b) {
            Some(i) => {
                proof {
                    crate::assoc::lemma_assoc_update_last(self.entries@, i as int, a);
                }
                self.entries.set(i, (b, a));
            },
            None => {
                let ghost s = self.entries@;
                self.entries.push((b, a));
                assert(self.entries@.drop_last() =~= s);
            },
        }
    }
}

/// A value of a config table, as far as the config reads it.
#[derive(Debug)]
pub enum TomlItem {
    Str(String),
    Int(i64),
    /// An array; each element that is a string, and `None` for the others.
    Array(Vec<Option<String>>),
    Other,
}

/// The view of a [`TomlItem`].
pub ghost enum TomlValue {
    Str(Seq<char>),
    Int(i64),
    Array(Seq<Option<Seq<char>>>),
    Other,
}

pub open spec fn opt_string_view(o: Option<String>) -> Option<Seq<char>> {
    match o {
        Some(s) => Some(s@),
        None => None,
    }
}

impl View for TomlItem {
    type V = TomlValue;

    open spec fn view(&self) -> TomlValue {
        match self {
            TomlItem::Str(s) => TomlValue::Str(s@),
            TomlItem::Int(i) => TomlValue::Int(*i),
            TomlItem::Array(a) => TomlValue::Array(a@.map_values(|o: Option<String>| opt_string_view(o))),
            TomlItem::Other => TomlValue::Other,
        }
    }
}

/// The view of the entries of a config table.
pub open spec fn items_view(v: Seq<(String, TomlItem)>) -> Seq<(Seq<char>, TomlValue)> {
    v.map_values(|p: (String, TomlItem)| (p.0@, p.1@))
}

/// The entries, in order, of the table `section` of the TOML document `text`
/// as `toml` parses it; none when the text does not parse or has no such
/// table.
pub uninterp spec fn toml_section_items(text: Seq<char>, section: Seq<char>) -> Option<Seq<(Seq<char>, TomlValue)>>;

/// Parses `text` with `toml::from_str` and lists the entries of its table
/// `section` (through `toml::Value::get`, `as_table` and the table's `iter`),
/// each value converted variant by variant. Claimed: the result is
/// `toml_section_items` of the two arguments.
#[verifier::external_body]
fn toml_section(text: &str, section: &str) -> (r: Option<Vec<(String, TomlItem)>>)
    ensures
        match r {
            Some(v) => toml_section_items(text@, section@) == Some(items_view(v@)),
            None => toml_section_items(text@, section@) is None,
        },
{
    let parsed: toml::Value = toml::from_str(text).ok()?;
    let table = parsed.get(section)?.as_table()?;
    Some(table.iter().map(|(k, v)| (k.clone(), match v {
        toml::Value::String(s) => TomlItem::Str(s.clone()),
        toml::Value::Integer(i) => TomlItem::Int(*i),
        toml::Value::Array(a) => TomlItem::Array(a.iter().map(|x| x.as_str().map(String::from)).collect()),
        _ => TomlItem::Other,
    })).collect())
}

/// The strings among the elements of an array, in order.
pub open spec fn strings_in(a: Seq<Option<Seq<char>>>) -> Seq<Seq<char>>
    decreases a.len(),
{
    if a.len() == 0 {
        Seq::empty()
    } else {
        match a.last() {
            Some(s) => strings_in(a.drop_last()).push(s),
            None => strings_in(a.drop_last()),
        }
    }
}

/// The key strings of a keymap entry: one string, or the strings of an array;
/// none for any other value.
pub open spec fn key_strings(v: TomlValue) -> Option<Seq<Seq<char>>> {
    match v {
        TomlValue::Str(s) => Some(seq![s]),
        TomlValue::Array(a) => Some(strings_in(a)),
        _ => None,
    }
}

/// Binds, in order, each key string that parses to the action `a`.
pub open spec fn bind_keys(m: Map<KeyBinding, Action>, keys: Seq<Seq<char>>, a: Action) -> Map<KeyBinding, Action>
    decreases keys.len(),
{
    if keys.len() == 0 {
        m
    } else {
        let m1 = bind_keys(m, keys.drop_last(), a);
        match key_binding(keys.last()) {
            Some(b) => m1.insert(b, a),
            None => m1,
        }
    }
}

/// One `[keys]` entry applied: an entry naming no action, or whose value is
/// neither a string nor an array, is skipped.
pub open spec fn apply_binding_item(m: Map<KeyBinding, Action>, item: (Seq<char>, TomlValue)) -> Map<KeyBinding, Action> {
    match action_named(item.0) {
        None => m,
        Some(a) => match key_strings(item.1) {
            None => m,
            Some(ks) => bind_keys(m, ks, a),
        },
    }
}

/// The `[keys]` entries applied in order.
pub open spec fn apply_binding_items(m: Map<KeyBinding, Action>, items: Seq<(Seq<char>, TomlValue)>) -> Map<KeyBinding, Action>
    decreases items.len(),
{
    if items.len() == 0 {
        m
    } else {
        apply_binding_item(apply_binding_items(m, items.drop_last()), items.last())
    }
}

/// The keymap after a `[keys]` table (if the config has one) is applied to `m`.
pub open spec fn keymap_after(section: Option<Seq<(Seq<char>, TomlValue)>>, m: Map<KeyBinding, Action>) -> Map<KeyBinding, Action> {
    match section {
        None => m,
        Some(items) => apply_binding_items(m, items),
    }
}

fn bind_key_string(map: &mut KeyMap, key: &str, a: Action)
    ensures
        final(map)@ == match key_binding(key@) {
            Some(b) => old(map)@.insert(b, a),
            None => old(map)@,
        },
{
    if let Some(b) = parse_key(key) {
        map.insert(b, a);
    }
}

/// Applies the entries of a `[keys]` table to `map`.
pub fn apply_keymap_section(items: Option<&Vec<(String, TomlItem)>>, map: &mut KeyMap)
    ensures
        final(map)@ == keymap_after(
            match items {
                Some(v) => Some(items_view(v@)),
                None => None,
            },
            old(map)@,
        ),
{
    let items = match items {
        Some(v) => v,
        None => return ,
    };
    let ghost iv = items_view(items@);
    let mut i: usize = 0;
    while i < items.len()
        invariant
            i <= items@.len(),
            iv == items_view(items@),
            map@ == apply_binding_items(old(map)@, iv.subrange(0, i as int)),
        decreases items@.len() - i,
    {
        let ghost before = map@;
        let (name, value) = (&items[i].0, &items[i].1);
        assert(iv.subrange(0, i + 1).drop_last() =~= iv.subrange(0, i as int));
        assert(iv[i as int] == (name@, value@));
        match action_from_name(name.as_str()) {
            None => {},
            Some(a) => match value {
                TomlItem::Str(s) => {
                    bind_key_string(map, s.as_str(), a);
                    assert(seq![s@].drop_last() =~= Seq::<Seq<char>>::empty());
                    assert(bind_keys(before, Seq::<Seq<char>>::empty(), a) == before);
                },
                TomlItem::Array(arr) => {
                    let ghost av = arr@.map_values(|o: Option<String>| opt_string_view(o));
                    let mut j: usize = 0;
                    while j < arr.len()
                        invariant
                            j <= arr@.len(),
                            av == arr@.map_values(|o: Option<String>| opt_string_view(o)),
                            map@ == bind_keys(before, strings_in(av.subrange(0, j as int)), a),
                        decreases arr@.len() - j,
                    {
                        assert(av.subrange(0, j + 1).drop_last() =~= av.subrange(0, j as int));
                        match &arr[j] {
                            Some(k) => {
                                bind_key_string(map, k.as_str(), a);
                                let ghost ks = strings_in(av.subrange(0, j as int));
                                assert(ks.push(k@).drop_last() =~= ks);
                            },
                            None => {},
                        }
                        j += 1;
                    }
                    assert(av.subrange(0, arr@.len() as int) =~= av);
                },
                _ => {},
            },
        }
        assert(map@ == apply_binding_item(before, iv[i as int]));
        assert(iv.subrange(0, i + 1).last() == iv[i as int]);
        i += 1;
    }
    assert(iv.subrange(0, items@.len() as int) =~= iv);
}

/// Applies the `[keys]` table of the config `text` to the bindings in `map`
/// and returns them, leaving `map` empty. A text that does not parse, or has
/// no `[keys]` table, changes nothing.
pub fn parse_keymap(text: &str, map: &mut KeyMap) -> (r: KeyMap)
    ensures
        r@ == keymap_after(toml_section_items(text@, "keys"@), old(map)@),
        final(map)@ == Map::<KeyBinding, Action>::empty(),
{
    let mut m = KeyMap { entries: Vec::new() };
    std::mem::swap(&mut m, map);
    let section = toml_section(text, "keys");
    match &section {
        Some(v) => apply_keymap_section(Some(v), &mut m),
        None => {},
    }
    m
}

/// The bindings of the default config with the user's config applied over
/// them, so that a key the user's config leaves out keeps its default action.
pub fn keymap_from_configs(default_text: &str, user_text: &str) -> (r: KeyMap)
    ensures
        r@ == keymap_after(
            toml_section_items(user_text@, "keys"@),
            keymap_after(toml_section_items(default_text@, "keys"@), Map::empty()),
        ),
{
    let mut seed = KeyMap::new();
    let mut defaults = parse_keymap(default_text, &mut seed);
    parse_keymap(user_text, &mut defaults)
}

/// Whether a `[keys]` entry binds some key string to `b`.
pub open spec fn item_binds(item: (Seq<char>, TomlValue), b: KeyBinding) -> bool {
    &&& action_named(item.0) is Some
    &&& key_strings(item.1) matches Some(ks)
    &&& exists|j: int| 0 <= j < ks.len() && key_binding(#[trigger] ks[j]) == Some(b)
}

/// Whether a `[keys]` table binds `b` at all.
pub open spec fn section_binds(section: Option<Seq<(Seq<char>, TomlValue)>>, b: KeyBinding) -> bool {
    match section {
        None => false,
        Some(items) => exists|i: int| 0 <= i < items.len() && item_binds(#[trigger] items[i], b),
    }
}

proof fn lemma_bind_keys_other(m: Map<KeyBinding, Action>, keys: Seq<Seq<char>>, a: Action, b: KeyBinding)
    requires
        forall|j: int| 0 <= j < keys.len() ==> key_binding(#[trigger] keys[j]) != Some(b),
    ensures
        bind_keys(m, keys, a).dom().contains(b) == m.dom().contains(b),
        m.dom().contains(b) ==> bind_keys(m, keys, a)[b] == m[b],
    decreases keys.len(),
{
    if keys.len() > 0 {
        assert forall|j: int| 0 <= j < keys.drop_last().len() implies key_binding(
            #[trigger] keys.drop_last()[j],
        ) != Some(b) by {
            assert(keys.drop_last()[j] == keys[j]);
        }
        lemma_bind_keys_other(m, keys.drop_last(), a, b);
        assert(key_binding(keys[keys.len() - 1]) != Some(b));
    }
}

proof fn lemma_apply_items_other(m: Map<KeyBinding, Action>, items: Seq<(Seq<char>, TomlValue)>, b: KeyBinding)
    requires
        forall|i: int| 0 <= i < items.len() ==> !item_binds(#[trigger] items[i], b),
    ensures
        apply_binding_items(m, items).dom().contains(b) == m.dom().contains(b),
        m.dom().contains(b) ==> apply_binding_items(m, items)[b] == m[b],
    decreases items.len(),
{
    if items.len() > 0 {
        assert forall|i: int| 0 <= i < items.drop_last().len() implies !item_binds(
            #[trigger] items.drop_last()[i],
            b,
        ) by {
            assert(items.drop_last()[i] == items[i]);
        }
        lemma_apply_items_other(m, items.drop_last(), b);
        let item = items[items.len() - 1];
        assert(!item_binds(item, b));
        let m1 = apply_binding_items(m, items.drop_last());
        if let Some(a) = action_named(item.0) {
            if let Some(ks) = key_strings(item.1) {
                lemma_bind_keys_other(m1, ks, a, b);
            }
        }
    }
}

/// A key that the applied config does not bind keeps whatever binding it had
/// (in particular, a key left out of the user's config keeps its default).
pub proof fn law_unbound_key_keeps_binding(text: Seq<char>, m: Map<KeyBinding, Action>, b: KeyBinding)
    requires
        !section_binds(toml_section_items(text, "keys"@), b),
    ensures
        keymap_after(toml_section_items(text, "keys"@), m).dom().contains(b) == m.dom().contains(b),
        m.dom().contains(b) ==> keymap_after(toml_section_items(text, "keys"@), m)[b] == m[b],
{
    if let Some(items) = toml_section_items(text, "keys"@) {
        assert forall|i: int| 0 <= i < items.len() implies !item_binds(#[trigger] items[i], b) by {}
        lemma_apply_items_other(m, items, b);
    }
}

/// Display settings read from the `[display]` table.
pub struct DisplayConfig {
    /// Screen column of the playhead, in percent of the width (0 to 100).
    pub playhead_position: u8,
    /// Rows per detail waveform (at least 3).
    pub detail_height: usize,
}

impl Default for DisplayConfig {
    fn default() -> (r: Self)
        ensures
            r.playhead_position == 20,
            r.detail_height == 6,
    {
        DisplayConfig { playhead_position: 20, detail_height: 6 }
    }
}

/// The value of the entry `key` of a table, if it has one.
pub open spec fn table_get(items: Seq<(Seq<char>, TomlValue)>, key: Seq<char>) -> Option<TomlValue>
    decreases items.len(),
{
    if items.len() == 0 {
        None
    } else if items[0].0 == key {
        Some(items[0].1)
    } else {
        table_get(items.skip(1), key)
    }
}

/// The value of the entry `key` of a table that may be missing.
pub open spec fn section_get(section: Option<Seq<(Seq<char>, TomlValue)>>, key: Seq<char>) -> Option<TomlValue> {
    match section {
        None => None,
        Some(items) => table_get(items, key),
    }
}

/// `playhead_position`: an integer clamped to 0..=100, else 20.
pub open spec fn playhead_from(v: Option<TomlValue>) -> u8 {
    match v {
        Some(TomlValue::Int(i)) => if i < 0 {
            0
        } else if i > 100 {
            100
        } else {
            i as u8
        },
        _ => 20,
    }
}

/// `detail_height`: an integer raised to at least 3, else 6.
pub open spec fn detail_height_from(v: Option<TomlValue>) -> usize {
    match v {
        Some(TomlValue::Int(i)) => if i < 3 {
            3
        } else {
            i as usize
        },
        _ => 6,
    }
}

fn get_item<'a>(items: &'a Vec<(String, TomlItem)>, key: &str) -> (r: Option<&'a TomlItem>)
    ensures
        match r {
            Some(v) => table_get(items_view(items@), key@) == Some(v@),
            None => table_get(items_view(items@), key@) is None,
        },
{
    let ghost iv = items_view(items@);
    let mut i: usize = 0;
    assert(iv.skip(0) =~= iv);
    while i < items.len()
        invariant
            i <= items@.len(),
            iv == items_view(items@),
            table_get(iv, key@) == table_get(iv.skip(i as int), key@),
        decreases items@.len() - i,
    {
        assert(iv.skip(i as int)[0] == iv[i as int]);
        assert(iv.skip(i as int).skip(1) =~= iv.skip(i + 1));
        if str_eq(items[i].0.as_str(), key) {
            return Some(&items[i].1);
        }
        i += 1;
    }
    None
}

/// Reads the display settings from the entries of a `[display]` table.
pub fn display_config_from_section(items: Option<&Vec<(String, TomlItem)>>) -> (r: DisplayConfig)
    ensures
        ({
            let section = match items {
                Some(v) => Some(items_view(v@)),
                None => None,
            };
            &&& r.playhead_position == playhead_from(section_get(section, "playhead_position"@))
            &&& r.detail_height == detail_height_from(section_get(section, "detail_height"@))
        }),
{
    let items = match items {
        Some(v) => v,
        None => return DisplayConfig::default(),
    };
    let playhead_position: u8 = match get_item(items, "playhead_position") {
        Some(TomlItem::Int(i)) => if *i < 0 {
            0
        } else if *i > 100 {
            100
        } else {
            *i as u8
        },
        _ => 20,
    };
    let detail_height: usize = match get_item(items, "detail_height") {
        Some(TomlItem::Int(i)) => if *i < 3 {
            3
        } else {
            *i as usize
        },
        _ => 6,
    };
    DisplayConfig { playhead_position, detail_height }
}

/// Reads the display settings from the config `text`: defaults where the text
/// does not parse, has no `[display]` table, or leaves an entry out.
pub fn parse_display_config(text: &str) -> (r: DisplayConfig)
    ensures
        r.playhead_position == playhead_from(section_get(toml_section_items(text@, "display"@), "playhead_position"@)),
        r.detail_height == detail_height_from(section_get(toml_section_items(text@, "display"@), "detail_height"@)),
        r.playhead_position <= 100,
{
    let section = toml_section(text, "display");
    match &section {
        Some(v) => display_config_from_section(Some(v)),
        None => display_config_from_section(None),
    }
}

} // verus!
