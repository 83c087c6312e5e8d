use vstd::prelude::*;
use crate::render::snap_anchor;

verus! {

/// The bit pattern of the `f32` 1.0, the gain a deck starts with.
pub const UNITY_GAIN_BITS: u32 = 0x3F80_0000;

/// What the background renderer reads of one deck in a frame.
#[derive(Clone, Copy, Debug, PartialEq, Eq, Structural)]
pub struct DeckFrame {
    /// Samples per buffer column at the current zoom and speed (at least 1).
    pub col_samp: usize,
    /// Playhead, in samples of one channel.
    pub pos: usize,
    /// Counts track loads, so a new track forces a render.
    pub generation: usize,
    pub bpm_bits: u32,
    pub offset_ms: i64,
    /// Cue sample, or -1 without a cue.
    pub cue_raw: i64,
    pub gain_bits: u32,
}

/// What one deck's current buffer was rendered from.
#[derive(Clone, Copy, Debug, PartialEq, Eq, Structural)]
pub struct DeckRendered {
    pub col_samp: usize,
    pub anchor: usize,
    pub generation: usize,
    pub bpm_bits: u32,
    pub offset_ms: i64,
    pub cue_raw: i64,
    pub gain_bits: u32,
}

/// What the current buffers were rendered from.
#[derive(Clone, Copy, Debug, PartialEq, Eq, Structural)]
pub struct Rendered {
    pub cols: usize,
    pub rows: usize,
    pub zoom: usize,
    pub a: DeckRendered,
    pub b: DeckRendered,
}

/// Nothing rendered yet: every comparison with a real frame differs.
pub fn nothing_rendered() -> (r: Rendered)
    ensures
        r.cols == 0 && r.rows == 0 && r.zoom == usize::MAX,
        r.a.col_samp == 0 && r.b.col_samp == 0,
        r.a.generation == usize::MAX && r.b.generation == usize::MAX,
        r.a.cue_raw == -1 && r.b.cue_raw == -1,
        r.a.gain_bits == UNITY_GAIN_BITS && r.b.gain_bits == UNITY_GAIN_BITS,
        r.a.anchor == 0 && r.b.anchor == 0 && r.a.bpm_bits == 0 && r.b.bpm_bits == 0,
        r.a.offset_ms == 0 && r.b.offset_ms == 0,
{
    let d = DeckRendered {
        col_samp: 0,
        anchor: 0,
        generation: usize::MAX,
        bpm_bits: 0,
        offset_ms: 0,
        cue_raw: -1,
        gain_bits: UNITY_GAIN_BITS,
    };
    Rendered { cols: 0, rows: 0, zoom: usize::MAX, a: d, b: d }
}

/// How many columns the playhead has moved from the rendered anchor (as far
/// as possible when nothing was rendered).
pub open spec fn drift(pos: int, anchor: int, col_samp: int) -> int {
    if col_samp > 0 {
        (if pos >= anchor { pos - anchor } else { anchor - pos }) / col_samp
    } else {
        usize::MAX as int
    }
}

/// Whether one deck's buffer is out of date: its column size, track, tempo,
/// offset, cue or gain changed, or the playhead drifted three quarters of a
/// screen from the anchor.
pub open spec fn deck_stale(last: DeckRendered, now: DeckFrame, cols: int) -> bool {
    ||| now.col_samp != last.col_samp
    ||| drift(now.pos as int, last.anchor as int, last.col_samp as int) >= cols * 3 / 4
    ||| now.generation != last.generation
    ||| now.bpm_bits != last.bpm_bits
    ||| now.offset_ms != last.offset_ms
    ||| now.cue_raw != last.cue_raw
    ||| now.gain_bits != last.gain_bits
}

/// Whether the buffers must be rendered again.
pub open spec fn stale(last: Rendered, cols: int, rows: int, zoom: int, a: DeckFrame, b: DeckFrame) -> bool {
    ||| cols != last.cols
    ||| rows != last.rows
    ||| zoom != last.zoom
    ||| deck_stale(last.a, a, cols)
    ||| deck_stale(last.b, b, cols)
}

fn drift_cols(pos: usize, anchor: usize, col_samp: usize) -> (r: usize)
    ensures
        r == drift(pos as int, anchor as int, col_samp as int),
{
    if col_samp > 0 {
        let diff = if pos >= anchor { pos - anchor } else { anchor - pos };
        diff / col_samp
    } else {
        usize::MAX
    }
}

fn deck_is_stale(last: &DeckRendered, now: &DeckFrame, cols: usize) -> (r: bool)
    requires
        cols * 3 <= usize::MAX,
    ensures
        r == deck_stale(*last, *now, cols as int),
{
    now.col_samp != last.col_samp || drift_cols(now.pos, last.anchor, last.col_samp) >= cols * 3 / 4
        || now.generation != last.generation || now.bpm_bits != last.bpm_bits || now.offset_ms
        != last.offset_ms || now.cue_raw != last.cue_raw || now.gain_bits != last.gain_bits
}

/// Whether the detail buffers must be rendered again for this frame.
pub fn must_recompute(last: &Rendered, cols: usize, rows: usize, zoom: usize, a: &DeckFrame, b: &DeckFrame) -> (r: bool)
    requires
        cols * 3 <= usize::MAX,
    ensures
        r == stale(*last, cols as int, rows as int, zoom as int, *a, *b),
{
    cols != last.cols || rows != last.rows || zoom != last.zoom || deck_is_stale(&last.a, a, cols)
        || deck_is_stale(&last.b, b, cols)
}

fn rendered_deck(now: &DeckFrame) -> (r: DeckRendered)
    requires
        now.col_samp > 0,
    ensures
        r.col_samp == now.col_samp,
        r.anchor == (now.pos / now.col_samp) * now.col_samp,
        r.anchor <= now.pos,
        now.pos - r.anchor < now.col_samp,
        r.generation == now.generation && r.bpm_bits == now.bpm_bits && r.offset_ms == now.offset_ms,
        r.cue_raw == now.cue_raw && r.gain_bits == now.gain_bits,
{
    DeckRendered {
        col_samp: now.col_samp,
        anchor: snap_anchor(now.pos, now.col_samp),
        generation: now.generation,
        bpm_bits: now.bpm_bits,
        offset_ms: now.offset_ms,
        cue_raw: now.cue_raw,
        gain_bits: now.gain_bits,
    }
}

/// What a render for this frame was made from: each deck anchored at its
/// playhead snapped down to a whole column.
pub fn record_render(cols: usize, rows: usize, zoom: usize, a: &DeckFrame, b: &DeckFrame) -> (r: Rendered)
    requires
        a.col_samp > 0,
        b.col_samp > 0,
    ensures
        r.cols == cols && r.rows == rows && r.zoom == zoom,
        r.a.col_samp == a.col_samp && r.a.anchor == (a.pos / a.col_samp) * a.col_samp,
        r.b.col_samp == b.col_samp && r.b.anchor == (b.pos / b.col_samp) * b.col_samp,
        r.a.anchor <= a.pos && a.pos - r.a.anchor < a.col_samp,
        r.b.anchor <= b.pos && b.pos - r.b.anchor < b.col_samp,
        r.a.generation == a.generation && r.a.bpm_bits == a.bpm_bits && r.a.offset_ms == a.offset_ms,
        r.a.cue_raw == a.cue_raw && r.a.gain_bits == a.gain_bits,
        r.b.generation == b.generation && r.b.bpm_bits == b.bpm_bits && r.b.offset_ms == b.offset_ms,
        r.b.cue_raw == b.cue_raw && r.b.gain_bits == b.gain_bits,
{
    Rendered { cols, rows, zoom, a: rendered_deck(a), b: rendered_deck(b) }
}

/// Right after a render, the same frame needs no new one (for a view at least
/// two columns wide): the playhead is within a column of each anchor.
pub proof fn law_fresh_render_is_current(last: Rendered, cols: usize, rows: usize, zoom: usize, a: DeckFrame, b: DeckFrame)
    requires
        cols >= 2,
        last.cols == cols && last.rows == rows && last.zoom == zoom,
        a.col_samp > 0 && b.col_samp > 0,
        last.a.col_samp == a.col_samp && last.a.anchor <= a.pos && a.pos - last.a.anchor < a.col_samp,
        last.b.col_samp == b.col_samp && last.b.anchor <= b.pos && b.pos - last.b.anchor < b.col_samp,
        last.a.generation == a.generation && last.a.bpm_bits == a.bpm_bits && last.a.offset_ms == a.offset_ms,
        last.a.cue_raw == a.cue_raw && last.a.gain_bits == a.gain_bits,
        last.b.generation == b.generation && last.b.bpm_bits == b.bpm_bits && last.b.offset_ms == b.offset_ms,
        last.b.cue_raw == b.cue_raw && last.b.gain_bits == b.gain_bits,
    ensures
        !stale(last, cols as int, rows as int, zoom as int, a, b),
{
    let da = a.pos - last.a.anchor;
    let db = b.pos - last.b.anchor;
    assert(da / (a.col_samp as int) == 0) by (nonlinear_arith)
        requires
            0 <= da < a.col_samp,
    ;
    assert(db / (b.col_samp as int) == 0) by (nonlinear_arith)
        requires
            0 <= db < b.col_samp,
    ;
}

} // verus!
