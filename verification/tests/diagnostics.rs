use translate::audio::backend::DeviceId;
use translate::diagnostics::isolation::{validate_isolation, IsolationError, LinkRoute};
use translate::diagnostics::loopcheck::{step_guard, GuardAction, LoopGuardState};
use translate::diagnostics::meter::{frame_energy, FrameEnergy};

fn id(s: &str) -> DeviceId {
    DeviceId(s.into())
}

#[test]
fn isolation_rejects_same_device_as_source_and_sink() {
    let bad = [LinkRoute {
        source: id("BlackHole"),
        sink: id("BlackHole"),
        source_is_virtual: true,
        sink_is_virtual: true,
    }];
    assert!(matches!(
        validate_isolation(&bad),
        Err(IsolationError::OutputIsVirtualCaptureSource { .. })
    ));

    let ok = [
        LinkRoute {
            source: id("PhysMic"),
            sink: id("VirtMic"),
            source_is_virtual: false,
            sink_is_virtual: true,
        },
        LinkRoute {
            source: id("VirtSpk"),
            sink: id("PhysHeadset"),
            source_is_virtual: true,
            sink_is_virtual: false,
        },
    ];
    assert_eq!(validate_isolation(&ok), Ok(()));
}

#[test]
fn isolation_rejects_output_to_virtual_capture_source() {
    let bad = [
        LinkRoute {
            source: id("PhysMic"),
            sink: id("VirtSpk"),
            source_is_virtual: false,
            sink_is_virtual: true,
        },
        LinkRoute {
            source: id("VirtSpk"),
            sink: id("PhysHeadset"),
            source_is_virtual: true,
            sink_is_virtual: false,
        },
    ];
    assert!(matches!(
        validate_isolation(&bad),
        Err(IsolationError::OutputIsVirtualCaptureSource { .. })
    ));
}

#[test]
fn guard_hysteresis_pause_and_resume() {
    let hold_frames: u16 = 3;
    let release_frames: u16 = 3;
    let yes = true;
    let no = false;
    let mut state = LoopGuardState::Clear;
    let mut actions = Vec::new();
    for _ in 0..3 {
        let (next, action) = step_guard(state, yes, hold_frames, release_frames);
        state = next;
        if let Some(action) = action {
            actions.push(action);
        }
    }
    assert_eq!(actions, vec![GuardAction::Pause]);

    let (next, action) = step_guard(state, no, hold_frames, release_frames);
    state = next;
    assert!(action.is_none());
    for _ in 0..2 {
        let (next, action) = step_guard(state, no, hold_frames, release_frames);
        state = next;
        if let Some(action) = action {
            actions.push(action);
        }
    }
    assert_eq!(actions, vec![GuardAction::Pause, GuardAction::Resume]);
}

#[test]
fn frame_energy_is_zero_alloc_and_correct() {
    assert_eq!(
        frame_energy(&[0i16; 480]),
        FrameEnergy {
            rms_q15: 0,
            peak: 0,
            n: 480
        }
    );
    let e = frame_energy(&[i16::MAX; 480]);
    assert_eq!(e.peak, i16::MAX);
    assert!(
        e.rms_q15 > 32000,
        "满刻度 RMS 接近 i16::MAX, got {}",
        e.rms_q15
    );
    assert_eq!(frame_energy(&[]).n, 0);
}
