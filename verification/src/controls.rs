use vstd::prelude::*;
use crate::config::{action_deck, counterpart, Action, KeyBinding, KeyCode, KeyMap};

verus! {

/// The highest audio latency correction, in milliseconds.
pub const MAX_LATENCY_MS: i64 = 250;

/// The filter offset's bound in either direction (low-pass below zero,
/// high-pass above).
pub const FILTER_STEPS: i32 = 16;

/// `n / d` rounded to the nearest integer, halves away from zero.
pub open spec fn round_half_away(n: int, d: int) -> int {
    if n >= 0 {
        (2 * n + d) / (2 * d)
    } else {
        -((-2 * n + d) / (2 * d))
    }
}

/// `x` clamped to `lo..=hi`.
pub open spec fn clamp(x: int, lo: int, hi: int) -> int {
    if x < lo {
        lo
    } else if x > hi {
        hi
    } else {
        x
    }
}

/// The latency to start with from the stored value: rounded to the nearest
/// 10 ms and kept within 0..=250.
pub fn initial_latency(stored: i64) -> (r: i64)
    ensures
        r == clamp(round_half_away(stored as int, 10) * 10, 0, MAX_LATENCY_MS as int),
        0 <= r <= MAX_LATENCY_MS,
{
    let m: i128 = if stored >= 0 { stored as i128 } else { -(stored as i128) };
    let q: i128 = (2 * m + 10) / 20;
    let rounded: i128 = if stored >= 0 { q * 10 } else { -(q * 10) };
    if rounded < 0 {
        0
    } else if rounded > 250 {
        250
    } else {
        rounded as i64
    }
}

/// The latency after one step down (`increase` false) or up: 10 ms, kept
/// within 0..=250 on the side it moves towards.
pub fn step_latency(ms: i64, increase: bool) -> (r: i64)
    requires
        increase ==> ms <= i64::MAX - 10,
        !increase ==> ms >= i64::MIN + 10,
    ensures
        r == if increase {
            if ms + 10 < MAX_LATENCY_MS { ms + 10 } else { MAX_LATENCY_MS as int }
        } else {
            if ms - 10 > 0 { ms - 10 } else { 0 }
        },
{
    if increase {
        let v = ms + 10;
        if v < MAX_LATENCY_MS { v } else { MAX_LATENCY_MS }
    } else {
        let v = ms - 10;
        if v > 0 { v } else { 0 }
    }
}

/// Latency steps keep a latency in 0..=250 within it, and a step up followed
/// by a step down gives back any latency below the top.
pub proof fn law_latency_steps(ms: i64)
    requires
        0 <= ms <= MAX_LATENCY_MS,
    ensures
        ({
            let up = if ms + 10 < MAX_LATENCY_MS { ms + 10 } else { MAX_LATENCY_MS as int };
            let down = if ms - 10 > 0 { ms - 10 } else { 0 };
            &&& 0 <= up <= MAX_LATENCY_MS
            &&& 0 <= down <= MAX_LATENCY_MS
            &&& (ms + 10 <= MAX_LATENCY_MS ==> (if up - 10 > 0 { up - 10 } else { 0 }) == ms)
        }),
{
}

/// The filter offset after one step towards high-pass, at most 16.
pub fn filter_up(offset: i32) -> (r: i32)
    requires
        offset < i32::MAX,
    ensures
        r == if offset + 1 < FILTER_STEPS { offset + 1 } else { FILTER_STEPS as int },
{
    let v = offset + 1;
    if v < FILTER_STEPS { v } else { FILTER_STEPS }
}

/// The filter offset after one step towards low-pass, at least -16.
pub fn filter_down(offset: i32) -> (r: i32)
    requires
        offset > i32::MIN,
    ensures
        r == if offset - 1 > -FILTER_STEPS { offset - 1 } else { -FILTER_STEPS },
{
    let v = offset - 1;
    if v > -FILTER_STEPS { v } else { -FILTER_STEPS }
}

/// Filter steps keep an offset in -16..=16 within it, and a step one way
/// followed by a step back gives back any offset short of that end.
pub proof fn law_filter_steps(offset: i32)
    requires
        -FILTER_STEPS <= offset <= FILTER_STEPS,
    ensures
        ({
            let up = if offset + 1 < FILTER_STEPS { offset + 1 } else { FILTER_STEPS as int };
            let down = if offset - 1 > -FILTER_STEPS { offset - 1 } else { -FILTER_STEPS };
            &&& -FILTER_STEPS <= up <= FILTER_STEPS
            &&& -FILTER_STEPS <= down <= FILTER_STEPS
            &&& (offset < FILTER_STEPS ==> (if up - 1 > -FILTER_STEPS { up - 1 } else { -FILTER_STEPS }) == offset)
            &&& (offset > -FILTER_STEPS ==> (if down + 1 < FILTER_STEPS { down + 1 } else { FILTER_STEPS as int }) == offset)
        }),
{
}

/// The zoom level after zooming in: the next of `levels` levels, if any.
pub fn zoom_in(idx: usize, levels: usize) -> (r: usize)
    ensures
        r == if idx + 1 < levels { idx + 1 } else { idx as int },
{
    if idx < levels && idx + 1 < levels { idx + 1 } else { idx }
}

/// The zoom level after zooming out: the previous one, if any.
pub fn zoom_out(idx: usize) -> (r: usize)
    ensures
        r == if idx > 0 { idx - 1 } else { 0 },
{
    if idx > 0 { idx - 1 } else { idx }
}

/// The detail height after one step up (`increase`) or down, kept within
/// `min..=max` on the side it moves towards.
pub fn step_height(h: usize, increase: bool, min: usize, max: usize) -> (r: usize)
    ensures
        r == if increase {
            if h < max { h + 1 } else { h as int }
        } else {
            if h > min { h - 1 } else { h as int }
        },
{
    if increase {
        if h < max { h + 1 } else { h }
    } else {
        if h > min { h - 1 } else { h }
    }
}

/// The colour scheme after cycling: the next of `n`, wrapping around.
pub fn next_scheme(idx: usize, n: usize) -> (r: usize)
    requires
        n > 0,
        idx < usize::MAX,
    ensures
        r == (idx + 1) % (n as int),
        r < n,
{
    (idx + 1) % n
}

/// The action a key press triggers: with space held (and the key not space
/// itself) a space chord is tried first; otherwise, or when the chord is
/// unbound, the key's own binding. The flag says whether a chord was used
/// (which releases the held space).
pub fn resolve_action(keymap: &KeyMap, space_held: bool, code: KeyCode) -> (r: (Option<Action>, bool))
    ensures
        ({
            let chord = KeyBinding::SpaceChord(code);
            let plain = KeyBinding::Key(code);
            let try_chord = space_held && code != KeyCode::Char(' ');
            if try_chord && keymap@.dom().contains(chord) {
                r == (Some(keymap@[chord]), true)
            } else if keymap@.dom().contains(plain) {
                r == (Some(keymap@[plain]), false)
            } else {
                r == (None::<Action>, false)
            }
        }),
{
    if space_held && code != KeyCode::Char(' ') {
        if let Some(a) = keymap.get(&KeyBinding::SpaceChord(code)) {
            return (Some(a), true);
        }
    }
    (keymap.get(&KeyBinding::Key(code)), false)
}

/// The beat jump an action asks for: the deck (0 or 1) and the signed number
/// of beats; none for other actions.
pub fn beat_jump(a: Action) -> (r: Option<(usize, i32)>)
    ensures
        r == match a {
            Action::Deck1JumpForward4b => Some((0usize, 16i32)),
            Action::Deck1JumpBackward4b => Some((0usize, -16i32)),
            Action::Deck1JumpForward8b => Some((0usize, 32i32)),
            Action::Deck1JumpBackward8b => Some((0usize, -32i32)),
            Action::Deck1JumpForward1bt => Some((0usize, 1i32)),
            Action::Deck1JumpBackward1bt => Some((0usize, -1i32)),
            Action::Deck1JumpForward4bt => Some((0usize, 4i32)),
            Action::Deck1JumpBackward4bt => Some((0usize, -4i32)),
            Action::Deck2JumpForward4b => Some((1usize, 16i32)),
            Action::Deck2JumpBackward4b => Some((1usize, -16i32)),
            Action::Deck2JumpForward8b => Some((1usize, 32i32)),
            Action::Deck2JumpBackward8b => Some((1usize, -32i32)),
            Action::Deck2JumpForward1bt => Some((1usize, 1i32)),
            Action::Deck2JumpBackward1bt => Some((1usize, -1i32)),
            Action::Deck2JumpForward4bt => Some((1usize, 4i32)),
            Action::Deck2JumpBackward4bt => Some((1usize, -4i32)),
            _ => None,
        },
{
    match a {
        Action::Deck1JumpForward4b => Some((0, 16)),
        Action::Deck1JumpBackward4b => Some((0, -16)),
        Action::Deck1JumpForward8b => Some((0, 32)),
        Action::Deck1JumpBackward8b => Some((0, -32)),
        Action::Deck1JumpForward1bt => Some((0, 1)),
        Action::Deck1JumpBackward1bt => Some((0, -1)),
        Action::Deck1JumpForward4bt => Some((0, 4)),
        Action::Deck1JumpBackward4bt => Some((0, -4)),
        Action::Deck2JumpForward4b => Some((1, 16)),
        Action::Deck2JumpBackward4b => Some((1, -16)),
        Action::Deck2JumpForward8b => Some((1, 32)),
        Action::Deck2JumpBackward8b => Some((1, -32)),
        Action::Deck2JumpForward1bt => Some((1, 1)),
        Action::Deck2JumpBackward1bt => Some((1, -1)),
        Action::Deck2JumpForward4bt => Some((1, 4)),
        Action::Deck2JumpBackward4bt => Some((1, -4)),
        _ => None,
    }
}

/// Whether a deck shows its rename offer: one was started and has a hint,
/// and no tempo confirmation, notification or accepted rename is in the way.
pub fn rename_offer_active(
    offer_started: bool,
    has_hint: bool,
    bpm_pending: bool,
    notifying: bool,
    accepted: bool,
) -> (r: bool)
    ensures
        r == (offer_started && has_hint && !bpm_pending && !notifying && !accepted),
{
    offer_started && has_hint && !bpm_pending && !notifying && !accepted
}

/// `ms` rounded to the nearest multiple of 10, halves away from zero.
pub fn round_to_ten(ms: i64) -> (r: i64)
    requires
        i64::MIN + 5 <= ms <= i64::MAX - 5,
    ensures
        r == round_half_away(ms as int, 10) * 10,
{
    let m: i128 = if ms >= 0 { ms as i128 } else { -(ms as i128) };
    let q: i128 = (2 * m + 10) / 20;
    assert(q * 10 <= m + 5) by (nonlinear_arith)
        requires
            q == (2 * m + 10) / 20,
            m >= 0,
    ;
    if ms >= 0 { (q * 10) as i64 } else { -(q * 10) as i64 }
}

/// A beat-grid offset brought into `0..period` (the Euclidean remainder).
pub fn wrap_offset(offset_ms: i64, period_ms: i64) -> (r: i64)
    requires
        period_ms > 0,
    ensures
        r == (offset_ms as int) % (period_ms as int),
        0 <= r < period_ms,
{
    if offset_ms >= 0 {
        offset_ms % period_ms
    } else {
        let x: i64 = -(offset_ms + 1);
        let m: i64 = x % period_ms;
        proof {
            let p = period_ms as int;
            vstd::arithmetic::div_mod::lemma_fundamental_div_mod(x as int, p);
            let k = (x as int) / p;
            assert(offset_ms == (-k - 1) * p + (p - 1 - m)) by (nonlinear_arith)
                requires
                    x == p * k + m,
                    x == -offset_ms - 1,
            ;
            vstd::arithmetic::div_mod::lemma_fundamental_div_mod_converse(
                offset_ms as int,
                p,
                -((x as int) / p) - 1,
                p - 1 - m,
            );
        }
        period_ms - 1 - m
    }
}

/// The offset after a step of `delta_ms`, wrapped into `0..period`.
pub fn step_offset(offset_ms: i64, delta_ms: i64, period_ms: i64) -> (r: i64)
    requires
        period_ms > 0,
        i64::MIN <= offset_ms + delta_ms <= i64::MAX,
    ensures
        r == (offset_ms + delta_ms) % (period_ms as int),
{
    wrap_offset(offset_ms + delta_ms, period_ms)
}

/// A step of the offset and the opposite step give back any offset inside
/// the beat period (wrapping around the ends of the period included).
pub proof fn law_offset_step_undone(offset_ms: int, delta_ms: int, period_ms: int)
    requires
        period_ms > 0,
        0 <= offset_ms < period_ms,
    ensures
        (((offset_ms + delta_ms) % period_ms) - delta_ms) % period_ms == offset_ms,
{
    let s = (offset_ms + delta_ms) % period_ms;
    vstd::arithmetic::div_mod::lemma_fundamental_div_mod(offset_ms + delta_ms, period_ms);
    let q = (offset_ms + delta_ms) / period_ms;
    assert(s - delta_ms == (-q) * period_ms + offset_ms) by (nonlinear_arith)
        requires
            offset_ms + delta_ms == period_ms * q + s,
    ;
    vstd::arithmetic::div_mod::lemma_fundamental_div_mod_converse(s - delta_ms, period_ms, -q, offset_ms);
}

/// What a finished tempo detection does: a cached result (not fresh), or any
/// result while no tempo is established, is applied; a fresh result over an
/// established tempo waits for the user. Applying establishes the tempo when
/// the result came from the cache or from a requested re-detection.
#[derive(Clone, Copy, Debug, PartialEq, Eq, Structural)]
pub enum Detection {
    Apply { establish: bool },
    AskUser,
}

/// Decides what to do with a tempo detection result.
pub fn on_bpm_detected(is_fresh: bool, bpm_established: bool, redetecting: bool) -> (r: Detection)
    ensures
        r == if !is_fresh || !bpm_established {
            Detection::Apply { establish: !is_fresh || redetecting }
        } else {
            Detection::AskUser
        },
{
    if !is_fresh || !bpm_established {
        Detection::Apply { establish: !is_fresh || redetecting }
    } else {
        Detection::AskUser
    }
}

/// What the re-detect key does to a deck's tempo analysis.
#[derive(Clone, Copy, Debug, PartialEq, Eq, Structural)]
pub enum Redetect {
    /// Dismiss the waiting tempo prompt.
    CancelPrompt,
    /// Stop the running re-detection, keep its result coming in the
    /// background, and go back to the tempo known before.
    Restore,
    /// Take up again a re-detection that was left running in the background.
    Resume,
    /// Start a new detection.
    Start,
    /// Nothing to re-detect: the track has not been analysed yet.
    Nothing,
}

/// Decides what the re-detect key does: a waiting prompt is dismissed first;
/// a running re-detection is put back; an analysed track resumes a
/// background result when there is one, or starts a new detection.
pub fn on_redetect(prompt_pending: bool, redetecting: bool, analysed: bool, background_ready: bool) -> (r: Redetect)
    ensures
        r == if prompt_pending {
            Redetect::CancelPrompt
        } else if redetecting {
            Redetect::Restore
        } else if analysed {
            if background_ready {
                Redetect::Resume
            } else {
                Redetect::Start
            }
        } else {
            Redetect::Nothing
        },
{
    if prompt_pending {
        Redetect::CancelPrompt
    } else if redetecting {
        Redetect::Restore
    } else if analysed {
        if background_ready {
            Redetect::Resume
        } else {
            Redetect::Start
        }
    } else {
        Redetect::Nothing
    }
}

/// Whether a tap session just ended with enough taps (8) to set the tempo.
pub fn tap_session_ended(was_active: bool, active_now: bool, taps: usize) -> (r: bool)
    ensures
        r == (was_active && !active_now && taps >= 8),
{
    was_active && !active_now && taps >= 8
}

/// The loading progress in percent (at most 100), once the total is known.
pub fn load_percent(done: usize, total: usize) -> (r: Option<usize>)
    requires
        done * 100 <= usize::MAX,
    ensures
        r == if total > 0 {
            let p = (done * 100) / (total as int);
            Some((if p < 100 { p } else { 100 }) as usize)
        } else {
            None::<usize>
        },
{
    if total > 0 {
        let p = done * 100 / total;
        Some(if p < 100 { p } else { 100 })
    } else {
        None
    }
}

/// What a per-deck key action does to its deck.
#[derive(Clone, Copy, Debug, PartialEq, Eq, Structural)]
pub enum DeckOp {
    PlayPause,
    LevelUp,
    LevelDown,
    LevelMax,
    LevelMin,
    FilterUp,
    FilterDown,
    FilterReset,
    BpmTap,
    MetronomeToggle,
    RedetectBpm,
    BpmUp,
    BpmDown,
    TempoReset,
    OffsetUp,
    OffsetDown,
    Cue,
    CuePlay,
}

/// The deck (0 or 1) and the operation of a per-deck action; none for global
/// actions and for those handled on their own (jumps, nudges, base tempo,
/// opening the browser).
pub open spec fn deck_op_spec(a: Action) -> Option<(usize, DeckOp)> {
    match a {
        Action::Deck1PlayPause => Some((0usize, DeckOp::PlayPause)),
        Action::Deck2PlayPause => Some((1usize, DeckOp::PlayPause)),
        Action::Deck1LevelUp => Some((0usize, DeckOp::LevelUp)),
        Action::Deck2LevelUp => Some((1usize, DeckOp::LevelUp)),
        Action::Deck1LevelDown => Some((0usize, DeckOp::LevelDown)),
        Action::Deck2LevelDown => Some((1usize, DeckOp::LevelDown)),
        Action::Deck1LevelMax => Some((0usize, DeckOp::LevelMax)),
        Action::Deck2LevelMax => Some((1usize, DeckOp::LevelMax)),
        Action::Deck1LevelMin => Some((0usize, DeckOp::LevelMin)),
        Action::Deck2LevelMin => Some((1usize, DeckOp::LevelMin)),
        Action::Deck1FilterIncrease => Some((0usize, DeckOp::FilterUp)),
        Action::Deck2FilterIncrease => Some((1usize, DeckOp::FilterUp)),
        Action::Deck1FilterDecrease => Some((0usize, DeckOp::FilterDown)),
        Action::Deck2FilterDecrease => Some((1usize, DeckOp::FilterDown)),
        Action::Deck1FilterReset => Some((0usize, DeckOp::FilterReset)),
        Action::Deck2FilterReset => Some((1usize, DeckOp::FilterReset)),
        Action::Deck1BpmTap => Some((0usize, DeckOp::BpmTap)),
        Action::Deck2BpmTap => Some((1usize, DeckOp::BpmTap)),
        Action::Deck1MetronomeToggle => Some((0usize, DeckOp::MetronomeToggle)),
        Action::Deck2MetronomeToggle => Some((1usize, DeckOp::MetronomeToggle)),
        Action::Deck1RedetectBpm => Some((0usize, DeckOp::RedetectBpm)),
        Action::Deck2RedetectBpm => Some((1usize, DeckOp::RedetectBpm)),
        Action::Deck1BpmIncrease => Some((0usize, DeckOp::BpmUp)),
        Action::Deck2BpmIncrease => Some((1usize, DeckOp::BpmUp)),
        Action::Deck1BpmDecrease => Some((0usize, DeckOp::BpmDown)),
        Action::Deck2BpmDecrease => Some((1usize, DeckOp::BpmDown)),
        Action::Deck1TempoReset => Some((0usize, DeckOp::TempoReset)),
        Action::Deck2TempoReset => Some((1usize, DeckOp::TempoReset)),
        Action::Deck1OffsetIncrease => Some((0usize, DeckOp::OffsetUp)),
        Action::Deck2OffsetIncrease => Some((1usize, DeckOp::OffsetUp)),
        Action::Deck1OffsetDecrease => Some((0usize, DeckOp::OffsetDown)),
        Action::Deck2OffsetDecrease => Some((1usize, DeckOp::OffsetDown)),
        Action::Deck1Cue => Some((0usize, DeckOp::Cue)),
        Action::Deck2Cue => Some((1usize, DeckOp::Cue)),
        Action::Deck1CuePlay => Some((0usize, DeckOp::CuePlay)),
        Action::Deck2CuePlay => Some((1usize, DeckOp::CuePlay)),
        _ => None,
    }
}

/// A per-deck action works on the deck its name says, the same control on
/// the other deck does the same operation there, and no two actions do the
/// same operation on the same deck.
pub proof fn law_deck_op_follows_action(a: Action, b: Action)
    ensures
        deck_op_spec(a) matches Some((s, op)) ==> action_deck(a) == Some(s) && deck_op_spec(counterpart(a))
            == Some(((1 - s) as usize, op)),
        deck_op_spec(a) is Some && deck_op_spec(a) == deck_op_spec(b) ==> a == b,
{
}

/// The deck and operation of a per-deck action (see `deck_op_spec`).
pub fn deck_op(a: Action) -> (r: Option<(usize, DeckOp)>)
    ensures
        r == deck_op_spec(a),
{
    match a {
        Action::Deck1PlayPause => Some((0, DeckOp::PlayPause)),
        Action::Deck2PlayPause => Some((1, DeckOp::PlayPause)),
        Action::Deck1LevelUp => Some((0, DeckOp::LevelUp)),
        Action::Deck2LevelUp => Some((1, DeckOp::LevelUp)),
        Action::Deck1LevelDown => Some((0, DeckOp::LevelDown)),
        Action::Deck2LevelDown => Some((1, DeckOp::LevelDown)),
        Action::Deck1LevelMax => Some((0, DeckOp::LevelMax)),
        Action::Deck2LevelMax => Some((1, DeckOp::LevelMax)),
        Action::Deck1LevelMin => Some((0, DeckOp::LevelMin)),
        Action::Deck2LevelMin => Some((1, DeckOp::LevelMin)),
        Action::Deck1FilterIncrease => Some((0, DeckOp::FilterUp)),
        Action::Deck2FilterIncrease => Some((1, DeckOp::FilterUp)),
        Action::Deck1FilterDecrease => Some((0, DeckOp::FilterDown)),
        Action::Deck2FilterDecrease => Some((1, DeckOp::FilterDown)),
        Action::Deck1FilterReset => Some((0, DeckOp::FilterReset)),
        Action::Deck2FilterReset => Some((1, DeckOp::FilterReset)),
        Action::Deck1BpmTap => Some((0, DeckOp::BpmTap)),
        Action::Deck2BpmTap => Some((1, DeckOp::BpmTap)),
        Action::Deck1MetronomeToggle => Some((0, DeckOp::MetronomeToggle)),
        Action::Deck2MetronomeToggle => Some((1, DeckOp::MetronomeToggle)),
        Action::Deck1RedetectBpm => Some((0, DeckOp::RedetectBpm)),
        Action::Deck2RedetectBpm => Some((1, DeckOp::RedetectBpm)),
        Action::Deck1BpmIncrease => Some((0, DeckOp::BpmUp)),
        Action::Deck2BpmIncrease => Some((1, DeckOp::BpmUp)),
        Action::Deck1BpmDecrease => Some((0, DeckOp::BpmDown)),
        Action::Deck2BpmDecrease => Some((1, DeckOp::BpmDown)),
        Action::Deck1TempoReset => Some((0, DeckOp::TempoReset)),
        Action::Deck2TempoReset => Some((1, DeckOp::TempoReset)),
        Action::Deck1OffsetIncrease => Some((0, DeckOp::OffsetUp)),
        Action::Deck2OffsetIncrease => Some((1, DeckOp::OffsetUp)),
        Action::Deck1OffsetDecrease => Some((0, DeckOp::OffsetDown)),
        Action::Deck2OffsetDecrease => Some((1, DeckOp::OffsetDown)),
        Action::Deck1Cue => Some((0, DeckOp::Cue)),
        Action::Deck2Cue => Some((1, DeckOp::Cue)),
        Action::Deck1CuePlay => Some((0, DeckOp::CuePlay)),
        Action::Deck2CuePlay => Some((1, DeckOp::CuePlay)),
        _ => None,
    }
}

} // verus!
