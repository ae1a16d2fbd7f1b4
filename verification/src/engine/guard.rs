//! The integer half of a link's loop guard: the two energy windows (played
//! and captured audio) and the hysteresis state. The correlation estimate
//! that turns the windows into a verdict is computed by the caller.

use crate::diagnostics::loopcheck::{guard_step, step_guard, GuardAction, LoopGuardState};
use crate::diagnostics::meter::{frame_energy, frame_energy_spec, FrameEnergy};
use crate::engine::link::{energy_window, push_energy_window};
use vstd::prelude::*;

verus! {

/// Fewer frames than this in either window give no verdict.
pub const MIN_WINDOW_FRAMES: usize = 4;

/// What the pipeline does after a guard transition.
#[derive(Debug, Clone, Copy, PartialEq, Eq, Structural)]
pub enum LoopPipelineAction {
    Pause,
    Resume,
}

pub struct LoopGuardCore {
    state: LoopGuardState,
    injected: Vec<FrameEnergy>,
    captured: Vec<FrameEnergy>,
    window_frames: usize,
    hold_frames: u16,
    release_frames: u16,
}

/// Mathematical state of the guard.
pub struct GuardView {
    pub state: LoopGuardState,
    pub injected: Seq<FrameEnergy>,
    pub captured: Seq<FrameEnergy>,
    pub window_frames: nat,
    pub hold_frames: u16,
    pub release_frames: u16,
}

impl View for LoopGuardCore {
    type V = GuardView;

    closed spec fn view(&self) -> GuardView {
        GuardView {
            state: self.state,
            injected: self.injected@,
            captured: self.captured@,
            window_frames: self.window_frames as nat,
            hold_frames: self.hold_frames,
            release_frames: self.release_frames,
        }
    }
}

/// The counters a guard state can hold: a streak is 1 or below the hold
/// threshold, a clear streak is 0 or below the release threshold.
pub open spec fn counters_in_range(state: LoopGuardState, hold_frames: u16, release_frames: u16) -> bool {
    match state {
        LoopGuardState::Clear => true,
        LoopGuardState::Suspected { streak } => streak == 1 || streak < hold_frames,
        LoopGuardState::Paused { clear_streak } => clear_streak == 0 || clear_streak < release_frames,
    }
}

/// The action that the pipeline takes for a guard action.
pub open spec fn pipeline_action(a: Option<GuardAction>) -> Option<LoopPipelineAction> {
    match a {
        Some(GuardAction::Pause) => Some(LoopPipelineAction::Pause),
        Some(GuardAction::Resume) => Some(LoopPipelineAction::Resume),
        None => None,
    }
}

/// State and windows once a verdict has been applied; an action
/// empties both windows.
pub open spec fn settle_spec(g: GuardView, suspected: bool) -> (GuardView, Option<LoopPipelineAction>) {
    let (next, action) = guard_step(g.state, suspected, g.hold_frames, g.release_frames);
    if action is Some {
        (GuardView { state: next, injected: Seq::empty(), captured: Seq::empty(), ..g }, pipeline_action(action))
    } else {
        (GuardView { state: next, ..g }, None)
    }
}

/// Whether the state is paused.
pub open spec fn paused(state: LoopGuardState) -> bool {
    state is Paused
}

impl LoopGuardCore {
    #[verifier::type_invariant]
    closed spec fn counters_fit(&self) -> bool {
        counters_in_range(self.state, self.hold_frames, self.release_frames)
    }

    /// A clear guard with empty windows of `window_frames` frames.
    pub fn new(window_frames: usize, hold_frames: u16, release_frames: u16) -> (r: Self)
        ensures
            r@ == (GuardView {
                state: LoopGuardState::Clear,
                injected: Seq::empty(),
                captured: Seq::empty(),
                window_frames: window_frames as nat,
                hold_frames,
                release_frames,
            }),
    {
        let r = LoopGuardCore {
            state: LoopGuardState::Clear,
            injected: Vec::new(),
            captured: Vec::new(),
            window_frames,
            hold_frames,
            release_frames,
        };
        assert(r@.injected =~= Seq::<FrameEnergy>::empty());
        assert(r@.captured =~= Seq::<FrameEnergy>::empty());
        r
    }

    /// Records the energy of a block just written to the output device.
    pub fn observe_injected(&mut self, samples: &[i16])
        ensures
            final(self)@ == (GuardView {
                injected: energy_window(old(self)@.injected, frame_energy_spec(samples@), old(self)@.window_frames),
                ..old(self)@
            }),
    {
        proof {
            use_type_invariant(&*self);
        }
        let e = frame_energy(samples);
        let mut w: Vec<FrameEnergy> = Vec::new();
        std::mem::swap(&mut w, &mut self.injected);
        push_energy_window(&mut w, e, self.window_frames);
        self.injected = w;
    }

    /// Records the energy of a captured block. Returns whether both windows
    /// now hold enough frames for a verdict.
    pub fn observe_captured(&mut self, samples: &[i16]) -> (r: bool)
        ensures
            final(self)@ == (GuardView {
                captured: energy_window(old(self)@.captured, frame_energy_spec(samples@), old(self)@.window_frames),
                ..old(self)@
            }),
            r == (final(self)@.injected.len() >= MIN_WINDOW_FRAMES && final(self)@.captured.len()
                >= MIN_WINDOW_FRAMES),
    {
        proof {
            use_type_invariant(&*self);
        }
        let e = frame_energy(samples);
        let mut w: Vec<FrameEnergy> = Vec::new();
        std::mem::swap(&mut w, &mut self.captured);
        push_energy_window(&mut w, e, self.window_frames);
        self.captured = w;
        self.injected.len() >= MIN_WINDOW_FRAMES && self.captured.len() >= MIN_WINDOW_FRAMES
    }

    /// Applies one verdict to the hysteresis state; a pause or a resume
    /// empties both windows.
    pub fn settle(&mut self, suspected: bool) -> (r: Option<LoopPipelineAction>)
        ensures
            (final(self)@, r) == settle_spec(old(self)@, suspected),
    {
        proof {
            use_type_invariant(&*self);
        }
        let (next, action) = step_guard(self.state, suspected, self.hold_frames, self.release_frames);
        self.state = next;
        match action {
            Some(GuardAction::Pause) => {
                self.injected = Vec::new();
                self.captured = Vec::new();
                assert(self@.injected =~= Seq::<FrameEnergy>::empty());
                assert(self@.captured =~= Seq::<FrameEnergy>::empty());
                Some(LoopPipelineAction::Pause)
            },
            Some(GuardAction::Resume) => {
                self.injected = Vec::new();
                self.captured = Vec::new();
                assert(self@.injected =~= Seq::<FrameEnergy>::empty());
                assert(self@.captured =~= Seq::<FrameEnergy>::empty());
                Some(LoopPipelineAction::Resume)
            },
            None => None,
        }
    }

    /// Applies the verdict of a detection window, if there is one. Without a
    /// verdict (the windows are still too short), a paused guard counts the
    /// frame as clean, so that it can still resume; a guard that is not
    /// paused is left as it is.
    pub fn settle_verdict(&mut self, verdict: Option<bool>) -> (r: Option<LoopPipelineAction>)
        ensures
            verdict matches Some(s) ==> (final(self)@, r) == settle_spec(old(self)@, s),
            (verdict is None && paused(old(self)@.state)) ==> (final(self)@, r) == settle_spec(
                old(self)@,
                false,
            ),
            (verdict is None && !paused(old(self)@.state)) ==> final(self)@ == old(self)@ && r is None,
    {
        match verdict {
            Some(suspected) => self.settle(suspected),
            None => {
                if self.is_paused() {
                    self.settle(false)
                } else {
                    None
                }
            },
        }
    }

    pub fn is_paused(&self) -> (r: bool)
        ensures
            r == paused(self@.state),
    {
        matches!(self.state, LoopGuardState::Paused { .. })
    }

    /// The window of played-block energies, oldest first.
    pub fn injected(&self) -> (r: &[FrameEnergy])
        ensures
            r@ == self@.injected,
    {
        self.injected.as_slice()
    }

    /// The window of captured-block energies, oldest first.
    pub fn captured(&self) -> (r: &[FrameEnergy])
        ensures
            r@ == self@.captured,
    {
        self.captured.as_slice()
    }
}

/// The guard state always keeps its counters in range, so a step never
/// overflows; a pause or resume always leaves both windows empty.
pub proof fn law_guard_counters_stay_in_range(g: GuardView, suspected: bool)
    requires
        counters_in_range(g.state, g.hold_frames, g.release_frames),
    ensures
        counters_in_range(settle_spec(g, suspected).0.state, g.hold_frames, g.release_frames),
        settle_spec(g, suspected).1 is Some ==> settle_spec(g, suspected).0.injected.len() == 0
            && settle_spec(g, suspected).0.captured.len() == 0,
        settle_spec(g, suspected).1 == Some(LoopPipelineAction::Pause) ==> paused(settle_spec(g, suspected).0.state),
        settle_spec(g, suspected).1 == Some(LoopPipelineAction::Resume) ==> !paused(settle_spec(g, suspected).0.state),
{
}

} // verus!
