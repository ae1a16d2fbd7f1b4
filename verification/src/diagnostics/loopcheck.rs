//! Second line of defence: the loop-guard hysteresis state machine.
//! A run of `hold_frames` suspected frames pauses translation; while paused, a
//! run of `release_frames` clean frames resumes it.

use vstd::prelude::*;

verus! {

#[derive(Debug, Clone, Copy, PartialEq, Eq, Structural)]
pub enum LoopGuardState {
    Clear,
    Suspected { streak: u16 },
    Paused { clear_streak: u16 },
}

#[derive(Debug, Clone, Copy, PartialEq, Eq, Structural)]
pub enum GuardAction {
    Pause,
    Resume,
}

/// The counter that the step is about to increment stays below `u16::MAX`.
pub open spec fn guard_step_fits(state: LoopGuardState, suspected: bool) -> bool {
    match state {
        LoopGuardState::Clear => true,
        LoopGuardState::Suspected { streak } => suspected ==> streak < u16::MAX,
        LoopGuardState::Paused { clear_streak } => !suspected ==> clear_streak < u16::MAX,
    }
}

/// One hysteresis transition for a frame whose loop evidence is `suspected`.
pub open spec fn guard_step(
    state: LoopGuardState,
    suspected: bool,
    hold_frames: u16,
    release_frames: u16,
) -> (LoopGuardState, Option<GuardAction>) {
    match state {
        LoopGuardState::Clear => {
            if suspected {
                if 1 >= hold_frames {
                    (LoopGuardState::Paused { clear_streak: 0 }, Some(GuardAction::Pause))
                } else {
                    (LoopGuardState::Suspected { streak: 1 }, None)
                }
            } else {
                (LoopGuardState::Clear, None)
            }
        },
        LoopGuardState::Suspected { streak } => {
            if suspected {
                if streak + 1 >= hold_frames {
                    (LoopGuardState::Paused { clear_streak: 0 }, Some(GuardAction::Pause))
                } else {
                    (LoopGuardState::Suspected { streak: (streak + 1) as u16 }, None)
                }
            } else {
                (LoopGuardState::Clear, None)
            }
        },
        LoopGuardState::Paused { clear_streak } => {
            if suspected {
                (LoopGuardState::Paused { clear_streak: 0 }, None)
            } else if clear_streak + 1 >= release_frames {
                (LoopGuardState::Clear, Some(GuardAction::Resume))
            } else {
                (LoopGuardState::Paused { clear_streak: (clear_streak + 1) as u16 }, None)
            }
        },
    }
}

/// Hysteresis step: `hold_frames` consecutive suspected frames give `Pause`;
/// once paused, `release_frames` consecutive clean frames give `Resume`.
/// `suspected`, `hold_frames` and `release_frames` are the loop evidence flag
/// and the two thresholds of the loop detector.
pub fn step_guard(
    state: LoopGuardState,
    suspected: bool,
    hold_frames: u16,
    release_frames: u16,
) -> (r: (LoopGuardState, Option<GuardAction>))
    requires
        guard_step_fits(state, suspected),
    ensures
        r == guard_step(state, suspected, hold_frames, release_frames),
{
    match state {
        LoopGuardState::Clear => {
            if suspected {
                if 1 >= hold_frames {
                    (LoopGuardState::Paused { clear_streak: 0 }, Some(GuardAction::Pause))
                } else {
                    (LoopGuardState::Suspected { streak: 1 }, None)
                }
            } else {
                (LoopGuardState::Clear, None)
            }
        },
        LoopGuardState::Suspected { streak } => {
            if suspected {
                let next = streak + 1;
                if next >= hold_frames {
                    (LoopGuardState::Paused { clear_streak: 0 }, Some(GuardAction::Pause))
                } else {
                    (LoopGuardState::Suspected { streak: next }, None)
                }
            } else {
                (LoopGuardState::Clear, None)
            }
        },
        LoopGuardState::Paused { clear_streak } => {
            if suspected {
                (LoopGuardState::Paused { clear_streak: 0 }, None)
            } else {
                let next = clear_streak + 1;
                if next >= release_frames {
                    (LoopGuardState::Clear, Some(GuardAction::Resume))
                } else {
                    (LoopGuardState::Paused { clear_streak: next }, None)
                }
            }
        },
    }
}

/// The guard run over a sequence of frame verdicts: final state and the action
/// emitted at each frame.
pub open spec fn guard_run(
    state: LoopGuardState,
    evidence: Seq<bool>,
    hold_frames: u16,
    release_frames: u16,
) -> (LoopGuardState, Seq<Option<GuardAction>>)
    decreases evidence.len(),
{
    if evidence.len() == 0 {
        (state, Seq::empty())
    } else {
        let (next, action) = guard_step(state, evidence[0], hold_frames, release_frames);
        let (last, actions) = guard_run(next, evidence.drop_first(), hold_frames, release_frames);
        (last, seq![action] + actions)
    }
}

/// A single clean frame while suspected drops back to `Clear` with no action:
/// jitter never flips the guard.
pub proof fn law_clean_frame_clears_suspicion(streak: u16, hold_frames: u16, release_frames: u16)
    ensures
        guard_step(LoopGuardState::Suspected { streak }, false, hold_frames, release_frames) == (
        LoopGuardState::Clear, None::<GuardAction>),
{
}

/// `Pause` is only ever emitted on a suspected frame while not paused,
/// `Resume` only on a clean frame while paused.
pub proof fn law_actions_follow_evidence(
    state: LoopGuardState,
    suspected: bool,
    hold_frames: u16,
    release_frames: u16,
)
    ensures
        guard_step(state, suspected, hold_frames, release_frames).1 == Some(GuardAction::Pause)
            ==> suspected && !(state is Paused),
        guard_step(state, suspected, hold_frames, release_frames).1 == Some(GuardAction::Resume)
            ==> !suspected && state is Paused,
{
}

proof fn lemma_suspected_run(streak: u16, evidence: Seq<bool>, hold_frames: u16, release_frames: u16)
    requires
        1 <= streak < hold_frames,
        evidence.len() == hold_frames - streak,
        forall|i: int| 0 <= i < evidence.len() ==> #[trigger] evidence[i],
    ensures
        guard_run(LoopGuardState::Suspected { streak }, evidence, hold_frames, release_frames)
            == (LoopGuardState::Paused { clear_streak: 0 }, Seq::new(
            evidence.len(),
            |i: int|
                if i == evidence.len() - 1 {
                    Some(GuardAction::Pause)
                } else {
                    None
                },
        )),
    decreases evidence.len(),
{
    let s = LoopGuardState::Suspected { streak };
    let rest = evidence.drop_first();
    assert(evidence[0]);
    if streak + 1 >= hold_frames {
        assert(rest.len() == 0);
        let p = LoopGuardState::Paused { clear_streak: 0 };
        assert(guard_run(p, rest, hold_frames, release_frames) == (p, Seq::<Option<GuardAction>>::empty()));
        assert(guard_run(s, evidence, hold_frames, release_frames).1 =~= Seq::new(
            evidence.len(),
            |i: int|
                if i == evidence.len() - 1 {
                    Some(GuardAction::Pause)
                } else {
                    None
                },
        ));
    } else {
        assert forall|i: int| 0 <= i < rest.len() implies #[trigger] rest[i] by {
            assert(rest[i] == evidence[i + 1]);
        }
        lemma_suspected_run((streak + 1) as u16, rest, hold_frames, release_frames);
        assert(guard_run(s, evidence, hold_frames, release_frames).1 =~= Seq::new(
            evidence.len(),
            |i: int|
                if i == evidence.len() - 1 {
                    Some(GuardAction::Pause)
                } else {
                    None
                },
        ));
    }
}

/// From `Clear`, exactly `hold_frames` consecutive suspected frames pause the
/// link: no action before the last of them, `Pause` on it.
pub proof fn law_hold_frames_pause(evidence: Seq<bool>, hold_frames: u16, release_frames: u16)
    requires
        hold_frames >= 1,
        evidence.len() == hold_frames,
        forall|i: int| 0 <= i < evidence.len() ==> #[trigger] evidence[i],
    ensures
        guard_run(LoopGuardState::Clear, evidence, hold_frames, release_frames).0
            == (LoopGuardState::Paused { clear_streak: 0 }),
        forall|i: int|
            0 <= i < hold_frames - 1 ==> #[trigger] guard_run(
                LoopGuardState::Clear,
                evidence,
                hold_frames,
                release_frames,
            ).1[i] == None::<GuardAction>,
        guard_run(LoopGuardState::Clear, evidence, hold_frames, release_frames).1[hold_frames - 1]
            == Some(GuardAction::Pause),
{
    let rest = evidence.drop_first();
    assert(evidence[0]);
    if hold_frames == 1 {
        let p = LoopGuardState::Paused { clear_streak: 0 };
        assert(rest.len() == 0);
        assert(guard_run(p, rest, hold_frames, release_frames) == (p, Seq::<Option<GuardAction>>::empty()));
        assert(guard_run(LoopGuardState::Clear, evidence, hold_frames, release_frames).1 =~= seq![
            Some(GuardAction::Pause),
        ]);
    } else {
        assert forall|i: int| 0 <= i < rest.len() implies #[trigger] rest[i] by {
            assert(rest[i] == evidence[i + 1]);
        }
        lemma_suspected_run(1, rest, hold_frames, release_frames);
        let actions = guard_run(LoopGuardState::Clear, evidence, hold_frames, release_frames).1;
        assert forall|i: int| 0 <= i < hold_frames - 1 implies #[trigger] actions[i] == None::<
            GuardAction,
        > by {
            if i > 0 {
                assert(actions[i] == guard_run(
                    LoopGuardState::Suspected { streak: 1 },
                    rest,
                    hold_frames,
                    release_frames,
                ).1[i - 1]);
            }
        }
    }
}

proof fn lemma_paused_run(clear: u16, evidence: Seq<bool>, hold_frames: u16, release_frames: u16)
    requires
        clear < release_frames,
        evidence.len() == release_frames - clear,
        forall|i: int| 0 <= i < evidence.len() ==> !#[trigger] evidence[i],
    ensures
        guard_run(LoopGuardState::Paused { clear_streak: clear }, evidence, hold_frames, release_frames)
            == (LoopGuardState::Clear, Seq::new(
            evidence.len(),
            |i: int|
                if i == evidence.len() - 1 {
                    Some(GuardAction::Resume)
                } else {
                    None
                },
        )),
    decreases evidence.len(),
{
    let s = LoopGuardState::Paused { clear_streak: clear };
    let rest = evidence.drop_first();
    assert(!evidence[0]);
    if clear + 1 >= release_frames {
        assert(rest.len() == 0);
        assert(guard_run(LoopGuardState::Clear, rest, hold_frames, release_frames) == (
        LoopGuardState::Clear, Seq::<Option<GuardAction>>::empty()));
        assert(guard_run(s, evidence, hold_frames, release_frames).1 =~= Seq::new(
            evidence.len(),
            |i: int|
                if i == evidence.len() - 1 {
                    Some(GuardAction::Resume)
                } else {
                    None
                },
        ));
    } else {
        assert forall|i: int| 0 <= i < rest.len() implies !#[trigger] rest[i] by {
            assert(rest[i] == evidence[i + 1]);
        }
        lemma_paused_run((clear + 1) as u16, rest, hold_frames, release_frames);
        assert(guard_run(s, evidence, hold_frames, release_frames).1 =~= Seq::new(
            evidence.len(),
            |i: int|
                if i == evidence.len() - 1 {
                    Some(GuardAction::Resume)
                } else {
                    None
                },
        ));
    }
}

/// Once paused, exactly `release_frames` consecutive clean frames resume the
/// link: no action before the last of them, `Resume` on it, and the guard is
/// `Clear` again.
pub proof fn law_release_frames_resume(evidence: Seq<bool>, hold_frames: u16, release_frames: u16)
    requires
        release_frames >= 1,
        evidence.len() == release_frames,
        forall|i: int| 0 <= i < evidence.len() ==> !#[trigger] evidence[i],
    ensures
        guard_run(LoopGuardState::Paused { clear_streak: 0 }, evidence, hold_frames, release_frames).0
            == LoopGuardState::Clear,
        forall|i: int|
            0 <= i < release_frames - 1 ==> #[trigger] guard_run(
                LoopGuardState::Paused { clear_streak: 0 },
                evidence,
                hold_frames,
                release_frames,
            ).1[i] == None::<GuardAction>,
        guard_run(LoopGuardState::Paused { clear_streak: 0 }, evidence, hold_frames, release_frames).1[
            release_frames - 1] == Some(GuardAction::Resume),
{
    lemma_paused_run(0, evidence, hold_frames, release_frames);
}

} // verus!
