use vstd::prelude::*;

verus! {

/// How a key event arrived: first press, auto-repeat, or release.
#[derive(Clone, Copy, PartialEq, Eq, Debug)]
pub enum KeyPhase {
    Press,
    Repeat,
    Release,
}

/// Space used as a chord modifier, followed across frames.
///
/// `held`: Space is down and the next key forms a chord with it.
/// `suppressed`: a chord has fired; presses of Space (terminals report
/// auto-repeat as presses) must not arm it again until a whole frame passes
/// without any Space event. `seen`: a Space event arrived in this frame.
#[derive(Clone, Copy, Debug)]
pub struct SpaceModifier {
    pub held: bool,
    pub suppressed: bool,
    pub seen: bool,
}

/// The modifier at the start of a frame: the suppression latch stays only if
/// the previous frame saw Space activity.
pub open spec fn frame_started(s: SpaceModifier) -> SpaceModifier {
    SpaceModifier { held: s.held, suppressed: s.suppressed && s.seen, seen: false }
}

/// The modifier after a Space event.
pub open spec fn space_event(s: SpaceModifier, phase: KeyPhase) -> SpaceModifier {
    match phase {
        KeyPhase::Release => SpaceModifier { held: false, suppressed: false, seen: true },
        _ => SpaceModifier { held: s.held || !s.suppressed, suppressed: s.suppressed, seen: true },
    }
}

/// The modifier after a chord fired: released and latched.
pub open spec fn chord_used(s: SpaceModifier) -> SpaceModifier {
    SpaceModifier { held: false, suppressed: true, seen: s.seen }
}

/// Frames in each of which exactly one Space event of the given phase arrives.
pub open spec fn frames_with_events(s: SpaceModifier, phases: Seq<KeyPhase>) -> SpaceModifier
    decreases phases.len(),
{
    if phases.len() == 0 {
        s
    } else {
        space_event(frame_started(frames_with_events(s, phases.drop_last())), phases.last())
    }
}

impl SpaceModifier {
    /// Space up, nothing latched, nothing seen.
    pub fn new() -> (r: Self)
        ensures
            !r.held,
            !r.suppressed,
            !r.seen,
    {
        SpaceModifier { held: false, suppressed: false, seen: false }
    }

    /// Called once at the start of every frame.
    pub fn start_frame(&mut self)
        ensures
            *final(self) == frame_started(*old(self)),
    {
        if self.suppressed && !self.seen {
            self.suppressed = false;
        }
        self.seen = false;
    }

    /// Called for every Space key event.
    pub fn on_space(&mut self, phase: KeyPhase)
        ensures
            *final(self) == space_event(*old(self), phase),
    {
        self.seen = true;
        match phase {
            KeyPhase::Press | KeyPhase::Repeat => {
                if !self.suppressed {
                    self.held = true;
                }
            },
            KeyPhase::Release => {
                self.held = false;
                self.suppressed = false;
            },
        }
    }

    /// Called when a key formed a chord with Space.
    pub fn on_chord(&mut self)
        ensures
            *final(self) == chord_used(*old(self)),
    {
        self.held = false;
        self.suppressed = true;
    }
}

/// Once a chord has fired, a stream of Space presses or repeats, at least one
/// in every frame, never arms the modifier again: the key stays latched until
/// it is released or a frame passes without Space activity.
pub proof fn law_repeats_do_not_rearm(s: SpaceModifier, phases: Seq<KeyPhase>)
    requires
        forall|i: int| 0 <= i < phases.len() ==> phases[i] != KeyPhase::Release,
    ensures
        !frames_with_events(chord_used(space_event(s, KeyPhase::Repeat)), phases).held,
        frames_with_events(chord_used(space_event(s, KeyPhase::Repeat)), phases).suppressed,
    decreases phases.len(),
{
    if phases.len() > 0 {
        let rest = phases.drop_last();
        assert forall|i: int| 0 <= i < rest.len() implies rest[i] != KeyPhase::Release by {
            assert(rest[i] == phases[i]);
        }
        law_repeats_do_not_rearm(s, rest);
    }
}

/// A frame without any Space event clears the latch, so the next press arms
/// the modifier, whatever came before.
pub proof fn law_quiet_frame_rearms(s: SpaceModifier, phase: KeyPhase)
    requires
        phase != KeyPhase::Release,
    ensures
        space_event(frame_started(frame_started(s)), phase).held,
{
}

} // verus!
