use vstd::prelude::*;

verus! {

/// Samples a seek fades out over before it jumps, and fades back in over after.
pub const FADE_SAMPLES: i64 = 256;

/// The read position of a deck's sample stream and its seek envelope.
///
/// `fade` below zero counts a fade-out up towards zero, at the end of which
/// a pending seek is applied and a fade-in of `fade_len` samples starts;
/// above zero it counts a fade-in down to zero; zero is plain playback.
#[derive(Clone, Copy, Debug, PartialEq, Eq, Structural)]
pub struct Playhead {
    pub position: usize,
    pub fade: i64,
    pub fade_len: i64,
    pub pending: Option<usize>,
}

impl Playhead {
    /// The envelope is within its length, and the length is positive.
    pub open spec fn wf(self) -> bool {
        &&& 0 < self.fade_len
        &&& -self.fade_len <= self.fade <= self.fade_len
    }
}

/// The sample to play and its gain, `gain_num / gain_den`.
#[derive(Clone, Copy, Debug, PartialEq, Eq, Structural)]
pub struct SampleStep {
    pub read_at: usize,
    pub gain_num: i64,
    pub gain_den: i64,
}

/// The next position, wrapping around at the end of the address space.
pub open spec fn wrap_inc(x: usize) -> usize {
    if x == usize::MAX {
        0
    } else {
        (x + 1) as usize
    }
}

/// One sample of playback: read at the position and move on; during a
/// fade-out the gain falls towards zero and, once it gets there, the pending
/// seek (if any) is applied and a fade-in starts; during a fade-in the gain
/// rises from zero.
pub open spec fn step_spec(p: Playhead) -> (Playhead, SampleStep) {
    let next = wrap_inc(p.position);
    if p.fade < 0 {
        let fade = p.fade + 1;
        let s = SampleStep { read_at: p.position, gain_num: -p.fade as i64, gain_den: p.fade_len };
        if fade == 0 {
            let position = match p.pending {
                Some(t) => t,
                None => next,
            };
            (Playhead { position, fade: p.fade_len, fade_len: p.fade_len, pending: None }, s)
        } else {
            (Playhead { position: next, fade: fade as i64, fade_len: p.fade_len, pending: p.pending }, s)
        }
    } else if p.fade > 0 {
        (
            Playhead { position: next, fade: (p.fade - 1) as i64, fade_len: p.fade_len, pending: p.pending },
            SampleStep { read_at: p.position, gain_num: (p.fade_len - p.fade) as i64, gain_den: p.fade_len },
        )
    } else {
        (
            Playhead { position: next, fade: 0, fade_len: p.fade_len, pending: p.pending },
            SampleStep { read_at: p.position, gain_num: 1, gain_den: 1 },
        )
    }
}

/// The playhead after `n` samples.
pub open spec fn steps(p: Playhead, n: nat) -> Playhead
    decreases n,
{
    if n == 0 {
        p
    } else {
        step_spec(steps(p, (n - 1) as nat)).0
    }
}

/// `x` moved on by `n` positions.
pub open spec fn advance(x: usize, n: nat) -> usize
    decreases n,
{
    if n == 0 {
        x
    } else {
        wrap_inc(advance(x, (n - 1) as nat))
    }
}

/// Plays one sample.
pub fn next_sample(p: &mut Playhead) -> (r: SampleStep)
    requires
        old(p).wf(),
    ensures
        (*final(p), r) == step_spec(*old(p)),
        final(p).wf(),
{
    let at = p.position;
    let next = if at == usize::MAX { 0 } else { at + 1 };
    if p.fade < 0 {
        let s = SampleStep { read_at: at, gain_num: -p.fade, gain_den: p.fade_len };
        let fade = p.fade + 1;
        if fade == 0 {
            p.position = match p.pending {
                Some(t) => t,
                None => next,
            };
            p.pending = None;
            p.fade = p.fade_len;
        } else {
            p.position = next;
            p.fade = fade;
        }
        s
    } else if p.fade > 0 {
        let s = SampleStep { read_at: at, gain_num: p.fade_len - p.fade, gain_den: p.fade_len };
        p.position = next;
        p.fade = p.fade - 1;
        s
    } else {
        p.position = next;
        SampleStep { read_at: at, gain_num: 1, gain_den: 1 }
    }
}

/// Asks for a faded seek to `target`: fade out over `fade_len` samples,
/// jump, fade back in.
pub fn request_seek(p: &mut Playhead, target: usize, fade_len: i64)
    requires
        fade_len > 0,
    ensures
        *final(p) == (Playhead { position: old(p).position, fade: -fade_len as i64, fade_len, pending: Some(target) }),
        final(p).wf(),
{
    p.fade_len = fade_len;
    p.pending = Some(target);
    p.fade = -fade_len;
}

/// Moves straight to `target`, dropping any fade or pending seek (used while
/// paused, when no samples are played to carry a fade).
pub fn jump_to(p: &mut Playhead, target: usize)
    requires
        old(p).wf(),
    ensures
        *final(p) == (Playhead { position: target, fade: 0, fade_len: old(p).fade_len, pending: None }),
        final(p).wf(),
{
    p.position = target;
    p.fade = 0;
    p.pending = None;
}

/// The sample index a seek to frame `frame` lands on: the frame's first
/// sample, at most the end of the stream.
pub fn frame_sample(frame: usize, frame_len: usize, total_samples: usize) -> (r: usize)
    requires
        frame * frame_len <= usize::MAX,
    ensures
        r == if frame * frame_len < total_samples { frame * frame_len } else { total_samples as int },
{
    let s = frame * frame_len;
    if s < total_samples { s } else { total_samples }
}

proof fn lemma_fade_out(p: Playhead, k: nat)
    requires
        p.wf(),
        p.fade < 0,
        k < -p.fade,
    ensures
        steps(p, k) == (Playhead { position: advance(p.position, k), fade: (p.fade + k) as i64, fade_len: p.fade_len, pending: p.pending }),
    decreases k,
{
    if k > 0 {
        lemma_fade_out(p, (k - 1) as nat);
    }
}

proof fn lemma_fade_in(p: Playhead, k: nat)
    requires
        p.wf(),
        p.fade > 0,
        k <= p.fade,
    ensures
        steps(p, k) == (Playhead { position: advance(p.position, k), fade: (p.fade - k) as i64, fade_len: p.fade_len, pending: p.pending }),
    decreases k,
{
    if k > 0 {
        lemma_fade_in(p, (k - 1) as nat);
    }
}

/// A faded seek lands on its target: `fade_len` samples after the request
/// the playhead is at the target with a full fade-in ahead (whose first
/// sample plays at gain 0, where the fade-out ended), and another
/// `fade_len` samples later it plays on normally from `fade_len` samples
/// past the target.
pub proof fn law_seek_lands_on_target(p: Playhead, target: usize)
    requires
        p.wf(),
        p.fade == -p.fade_len,
        p.pending == Some(target),
    ensures
        steps(p, p.fade_len as nat) == (Playhead { position: target, fade: p.fade_len, fade_len: p.fade_len, pending: None }),
        step_spec(steps(p, p.fade_len as nat)).1.gain_num == 0,
        steps(steps(p, p.fade_len as nat), p.fade_len as nat) == (Playhead {
            position: advance(target, p.fade_len as nat),
            fade: 0,
            fade_len: p.fade_len,
            pending: None,
        }),
{
    let l = p.fade_len as nat;
    lemma_fade_out(p, (l - 1) as nat);
    let q = steps(p, l);
    assert(q == (Playhead { position: target, fade: p.fade_len, fade_len: p.fade_len, pending: None }));
    lemma_fade_in(q, l);
}

/// Without a seek, playback reads one sample after another at full gain.
pub proof fn law_plain_playback(p: Playhead, n: nat)
    requires
        p.wf(),
        p.fade == 0,
    ensures
        steps(p, n) == (Playhead { position: advance(p.position, n), fade: 0, fade_len: p.fade_len, pending: p.pending }),
        step_spec(steps(p, n)).1 == (SampleStep { read_at: advance(p.position, n), gain_num: 1, gain_den: 1 }),
    decreases n,
{
    if n > 0 {
        law_plain_playback(p, (n - 1) as nat);
    }
}

} // verus!
