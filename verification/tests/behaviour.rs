use std::sync::{Arc, Mutex};
use tokio::sync::mpsc;
use translate::audio::backend::{
    device_info_from_name, find_device, is_virtual_device_name, AudioBackend, AudioError, DeviceId, DeviceInfo, DeviceWatchHandle, Direction,
    InputStream, OutputStream, StreamCfg,
};
use translate::audio::frame::PcmFrame;
use translate::audio::ring::{AudioConsumer, AudioProducer};
use translate::cli::arg_value;
use translate::devices::classify::DeviceUse;
use translate::devices::manager::{snapshot_from_listings, DeviceManager};
use translate::devices::snapshot::{diff_snapshots, DeviceSnapshot};
use translate::devices::watch::DeviceEvent;
use translate::diagnostics::isolation::{validate_isolation, IsolationError, LinkRoute};
use translate::diagnostics::meter::FrameEnergy;
use translate::diagnostics::loopcheck::{step_guard, GuardAction, LoopGuardState};
use translate::dsp::vad::{zero_crossing_rate, Vad, VadConfig, VadDecision, VadStats};
use translate::engine::control::{top_state_of, worst_state, SessionState, SourceLang, TranslateMode};
use translate::engine::guard::{LoopGuardCore, LoopPipelineAction};
use translate::engine::link::{
    append_bounded_downstream, flush_downstream, push_energy_window, samples_for_ms,
    ReconnectBudget, ReconnectDecision,
};
use translate::engine::pump::{input_chunk_for, padded_blocks, upstream_gate};
use translate::engine::route::{build_routes, find, LinkIntent, RouteError, RouteSpec};
use translate::gemini::codec::{decode_audio, encode_input};
use translate::gemini::protocol::{
    InlineData, ModelTurn, Part, ServerContent, ServerMessage, Setup,
};
use translate::gemini::session::{forward_decoded, FrameSender, next_backoff_ms, SessionError};

fn dev(name: &str, def: bool, virt: bool) -> DeviceInfo {
    DeviceInfo {
        id: DeviceId(name.into()),
        name: name.into(),
        is_default: def,
        is_virtual: virt,
    }
}

fn tone(amp: i16, n: usize) -> Vec<i16> {
    (0..n)
        .map(|i| if i % 2 == 0 { amp } else { -amp })
        .collect()
}

#[test]
fn le_bytes_cover_extremes_and_ignore_odd_byte() {
    let frame = PcmFrame::new(vec![i16::MIN, i16::MAX, -2], 24_000);
    let bytes = frame.to_le_bytes();
    assert_eq!(bytes, vec![0x00, 0x80, 0xff, 0x7f, 0xfe, 0xff]);
    let mut odd = bytes.clone();
    odd.push(0x12);
    let back = PcmFrame::from_le_bytes(&odd, 24_000);
    assert_eq!(back, frame);
    assert!(PcmFrame::from_le_bytes(&[0x01], 8_000).samples.is_empty());
}

#[test]
fn audio_error_messages() {
    assert_eq!(AudioError::DeviceNotFound("X".into()).message(), "设备未找到: X");
    assert_eq!(AudioError::OpenStream("busy".into()).message(), "打开音频流失败: busy");
    assert_eq!(SessionError::Connect("dns".into()).message(), "连接失败: dns");
    assert_eq!(SessionError::Send("eof".into()).message(), "发送失败: eof");
}

#[test]
fn virtual_name_match_ignores_ascii_case() {
    assert!(is_virtual_device_name("VoiceMeeter Output"));
    assert!(is_virtual_device_name("my cable"));
    assert!(!is_virtual_device_name("Black Hole"));
    assert!(!is_virtual_device_name(""));
}

#[test]
fn find_device_returns_first_match() {
    let list = vec![dev("A", false, false), dev("B", true, false), dev("B", false, true)];
    let found = find_device(&list, &DeviceId("B".into())).unwrap();
    assert!(found.is_default);
    assert!(find_device(&list, &DeviceId("C".into())).is_none());
}

#[test]
fn vad_sends_only_while_speaking() {
    let cfg = VadConfig::default_uplink();
    let mut vad = Vad::new(cfg);
    let loud = tone(8000, 480);
    for _ in 0..20 {
        let d = vad.observe(&loud);
        assert_eq!(d == VadDecision::Send, vad.is_speaking());
    }
    let quiet = [0i16; 480];
    for _ in 0..40 {
        let d = vad.observe(&quiet);
        assert_eq!(d == VadDecision::Send, vad.is_speaking());
    }
}

#[test]
fn vad_burst_shorter_than_attack_is_dropped() {
    let cfg = VadConfig::default_uplink();
    let mut vad = Vad::new(cfg);
    let loud = tone(8000, 480);
    for _ in 1..cfg.attack_frames {
        assert_eq!(vad.observe(&loud), VadDecision::Drop);
    }
    assert!(!vad.is_speaking());
    assert_eq!(vad.observe(&[0i16; 480]), VadDecision::Drop);
    for _ in 1..cfg.attack_frames {
        assert_eq!(vad.observe(&loud), VadDecision::Drop);
    }
    assert_eq!(vad.observe(&loud), VadDecision::Send);
}

#[test]
fn vad_speech_holds_above_closing_threshold() {
    let cfg = VadConfig::default_uplink();
    let mut vad = Vad::new(cfg);
    let loud: Vec<i16> = (0..480).map(|i| if i < 240 { 8000 } else { -8000 }).collect();
    for _ in 0..(cfg.attack_frames + 1) {
        let _ = vad.observe(&loud);
    }
    let border: Vec<i16> = (0..480).map(|i| if i < 240 { 600 } else { -600 }).collect();
    for _ in 0..(cfg.hangover_frames + 20) {
        assert_eq!(vad.observe(&border), VadDecision::Send);
    }
    assert!(vad.is_speaking());
}

#[test]
fn vad_noise_floor_is_frozen_while_speaking() {
    let cfg = VadConfig::default_uplink();
    let mut vad = Vad::new(cfg);
    let loud = tone(8000, 480);
    for _ in 0..(cfg.attack_frames + 1) {
        let _ = vad.observe(&loud);
    }
    assert!(vad.is_speaking());
    let floor = vad.noise_floor();
    for _ in 0..10 {
        let _ = vad.observe(&loud);
        assert_eq!(vad.noise_floor(), floor);
    }
}

#[test]
fn vad_stats_count_each_decision() {
    let mut stats = VadStats::default();
    stats.record(VadDecision::Send);
    stats.record(VadDecision::Drop);
    stats.record(VadDecision::Drop);
    assert_eq!((stats.frames_total, stats.frames_sent, stats.frames_dropped), (3, 1, 2));
}

#[test]
fn zero_crossing_ignores_dead_zone() {
    assert_eq!(zero_crossing_rate(&[100, 10, -10, -100, 50, 100]), 2);
    assert_eq!(zero_crossing_rate(&[64, -64, 64]), 0);
    assert_eq!(zero_crossing_rate(&[]), 0);
}

#[test]
fn isolation_reports_plain_overlap() {
    let links = [LinkRoute {
        source: DeviceId("Mic".into()),
        sink: DeviceId("Mic".into()),
        source_is_virtual: false,
        sink_is_virtual: false,
    }];
    assert_eq!(
        validate_isolation(&links),
        Err(IsolationError::SourceSinkOverlap {
            device: "Mic".into()
        })
    );
    assert_eq!(validate_isolation(&[]), Ok(()));
}

#[test]
fn guard_single_clean_frame_clears_suspicion() {
    let (state, action) = step_guard(LoopGuardState::Suspected { streak: 5 }, false, 10, 10);
    assert_eq!(state, LoopGuardState::Clear);
    assert!(action.is_none());
    let (state, action) = step_guard(LoopGuardState::Paused { clear_streak: 3 }, true, 10, 10);
    assert_eq!(state, LoopGuardState::Paused { clear_streak: 0 });
    assert!(action.is_none());
    assert_eq!(
        step_guard(LoopGuardState::Paused { clear_streak: 0 }, false, 10, 1).1,
        Some(GuardAction::Resume)
    );
}

#[test]
fn worst_state_is_symmetric_in_severity() {
    let a = SessionState::Starting;
    let b = SessionState::Idle;
    assert_eq!(worst_state(&a, &b), SessionState::Starting);
    assert_eq!(worst_state(&b, &a), SessionState::Starting);
    assert_eq!(
        worst_state(&SessionState::Error("x".into()), &SessionState::Error("y".into())),
        SessionState::Error("x".into())
    );
}

#[test]
fn top_state_counts_missing_links_as_idle() {
    assert_eq!(top_state_of(None, None), SessionState::Idle);
    assert_eq!(
        top_state_of(Some(SessionState::Running), None),
        SessionState::Running
    );
    assert_eq!(
        top_state_of(
            Some(SessionState::Running),
            Some(SessionState::Reconnecting { attempt: 2 })
        ),
        SessionState::Reconnecting { attempt: 2 }
    );
}

#[test]
fn reconnect_gives_up_before_first_connection_and_names_attempts() {
    let mut fresh = ReconnectBudget::new(5);
    match fresh.connect_failed("refused".into()) {
        ReconnectDecision::GiveUp(SessionState::Error(msg)) => assert_eq!(msg, "refused"),
        other => panic!("unexpected {other:?}"),
    }
    let mut budget = ReconnectBudget::new(2);
    budget.disconnected();
    assert!(matches!(
        budget.connect_failed("net".into()),
        ReconnectDecision::Retry(SessionState::Reconnecting { attempt: 2 })
    ));
    match budget.connect_failed("net".into()) {
        ReconnectDecision::GiveUp(SessionState::Error(msg)) => {
            assert_eq!(msg, "重连失败，已尝试 2 次: net")
        }
        other => panic!("unexpected {other:?}"),
    }
}

#[test]
fn backlog_with_zero_limit_drops_everything() {
    let mut pending = vec![1, 2];
    assert_eq!(append_bounded_downstream(&mut pending, &[3], 0), 3);
    assert!(pending.is_empty());
    let mut pending = vec![1];
    assert_eq!(append_bounded_downstream(&mut pending, &[2, 3], 5), 0);
    assert_eq!(pending, vec![1, 2, 3]);
}

#[test]
fn flush_downstream_writes_what_fits() {
    let (mut prod, mut cons) = translate::audio::ring::audio_channel(3);
    let mut pending = vec![1, 2, 3, 4, 5];
    assert_eq!(flush_downstream(&mut prod, &mut pending), 3);
    assert_eq!(pending, vec![4, 5]);
    let mut out = [0i16; 3];
    assert_eq!(cons.pop_slice(&mut out), 3);
    assert_eq!(out, [1, 2, 3]);
    let mut empty: Vec<i16> = Vec::new();
    assert_eq!(flush_downstream(&mut prod, &mut empty), 0);
}

#[test]
fn samples_for_ms_is_at_least_one() {
    assert_eq!(samples_for_ms(48_000, 1000), 48_000);
    assert_eq!(samples_for_ms(24_000, 20), 480);
    assert_eq!(samples_for_ms(10, 1), 1);
}

#[test]
fn energy_window_keeps_newest() {
    let e = |r: i32| FrameEnergy { rms_q15: r, peak: 0, n: 1 };
    let mut w = Vec::new();
    for r in 0..5 {
        push_energy_window(&mut w, e(r), 3);
    }
    assert_eq!(w, vec![e(2), e(3), e(4)]);
    push_energy_window(&mut w, e(9), 0);
    assert_eq!(w.len(), 3);
}

#[test]
fn loop_guard_core_pauses_clears_windows_and_resumes() {
    let mut g = LoopGuardCore::new(8, 2, 2);
    for _ in 0..4 {
        g.observe_injected(&[1000; 480]);
    }
    let mut ready = false;
    for _ in 0..4 {
        ready = g.observe_captured(&[500; 480]);
    }
    assert!(ready);
    assert_eq!(g.injected().len(), 4);
    assert_eq!(g.captured()[0].rms_q15, 500);
    assert_eq!(g.settle(true), None);
    assert_eq!(g.settle(true), Some(LoopPipelineAction::Pause));
    assert!(g.is_paused());
    assert!(g.injected().is_empty() && g.captured().is_empty());
    assert!(!g.observe_captured(&[0; 480]));
    assert_eq!(g.settle(false), None);
    assert_eq!(g.settle(false), Some(LoopPipelineAction::Resume));
    assert!(!g.is_paused());
}

#[test]
fn capture_block_is_ten_milliseconds() {
    assert_eq!(input_chunk_for(48_000), 480);
    assert_eq!(input_chunk_for(44_100), 441);
    assert_eq!(input_chunk_for(50), 1);
}

#[test]
fn upstream_gate_respects_pause_and_switch() {
    let cfg = VadConfig::default_uplink();
    let mut vad = Vad::new(cfg);
    let silence = [0i16; 480];
    assert!(upstream_gate(&mut vad, &silence, true, false));
    assert!(!upstream_gate(&mut vad, &silence, true, true));
    assert!(!upstream_gate(&mut vad, &silence, false, false));
    let loud = tone(8000, 480);
    for _ in 0..cfg.attack_frames {
        let _ = upstream_gate(&mut vad, &loud, false, true);
    }
    assert!(!upstream_gate(&mut vad, &loud, false, true));
    assert!(vad.is_speaking());
    assert!(upstream_gate(&mut vad, &loud, false, false));
}

#[test]
fn padded_blocks_cut_and_pad() {
    let blocks = padded_blocks(&[1, 2, 3, 4, 5], 2);
    assert_eq!(blocks, vec![vec![1, 2], vec![3, 4], vec![5, 0]]);
    assert_eq!(padded_blocks(&[1, 2], 2), vec![vec![1, 2]]);
    assert!(padded_blocks(&[], 480).is_empty());
}

#[test]
fn route_errors_name_the_device() {
    let devices = vec![dev("PhysMic", false, false)];
    assert_eq!(
        find(&devices, &DeviceId("Nope".into())),
        Err(RouteError::DeviceNotFound("Nope".into()))
    );
    let intent = |i: &str, o: &str| LinkIntent {
        in_dev: DeviceId(i.into()),
        out_dev: DeviceId(o.into()),
        target_lang: "en".into(),
        source: SourceLang::Locked("zh".into()),
    };
    let spec = RouteSpec {
        mode: TranslateMode::DownlinkOnly,
        uplink: intent("Gone", "Gone"),
        downlink: intent("PhysMic", "PhysMic"),
    };
    let matrix = build_routes(&spec, &devices).unwrap();
    assert!(matrix.uplink.is_none());
    assert_eq!(matrix.downlink.unwrap().source, SourceLang::Auto);
    let spec_up = RouteSpec {
        mode: TranslateMode::UplinkOnly,
        uplink: intent("PhysMic", "Missing"),
        downlink: intent("Gone", "Gone"),
    };
    assert_eq!(
        build_routes(&spec_up, &devices),
        Err(RouteError::DeviceNotFound("Missing".into()))
    );
}

#[test]
fn route_isolation_maps_errors() {
    let devices = vec![dev("PhysMic", false, false), dev("PhysSpk", false, false)];
    let intent = |i: &str, o: &str| LinkIntent {
        in_dev: DeviceId(i.into()),
        out_dev: DeviceId(o.into()),
        target_lang: "en".into(),
        source: SourceLang::Auto,
    };
    let spec = RouteSpec {
        mode: TranslateMode::Bidirectional,
        uplink: intent("PhysMic", "PhysSpk"),
        downlink: intent("PhysSpk", "PhysMic"),
    };
    let matrix = build_routes(&spec, &devices).unwrap();
    assert_eq!(
        translate::engine::route::validate_isolation(&matrix, &devices),
        Err(RouteError::SourceSinkOverlap("PhysSpk".into()))
    );
    assert_eq!(
        translate::engine::route::validate_isolation(&matrix, &devices[..1]),
        Err(RouteError::DeviceNotFound("PhysSpk".into()))
    );
}

#[test]
fn setup_fixes_target_only() {
    let s = Setup::new_translate("models/x", "ja", true);
    assert_eq!(s.setup.model, "models/x");
    assert_eq!(s.setup.generation_config.response_modalities, vec!["AUDIO".to_string()]);
    assert_eq!(s.setup.generation_config.translation_config.target_language_code, "ja");
    assert!(s.setup.generation_config.translation_config.echo_target_language);
}

fn message(parts: Vec<(&str, &str)>) -> ServerMessage {
    ServerMessage {
        server_content: Some(ServerContent {
            model_turn: Some(ModelTurn {
                parts: parts
                    .into_iter()
                    .map(|(m, d)| Part {
                        inline_data: Some(InlineData {
                            mime_type: m.into(),
                            data: d.into(),
                        }),
                    })
                    .collect(),
            }),
        }),
        setup_complete: None,
    }
}

#[test]
fn encoded_audio_decodes_back_through_a_server_message() {
    let frame = PcmFrame::new(vec![7, -7, i16::MIN, i16::MAX], 16_000);
    let ri = encode_input(&frame);
    assert_eq!(ri.realtime_input.audio.data, "BwD5/wCA/38=");
    let msg = message(vec![(
        &ri.realtime_input.audio.mime_type,
        &ri.realtime_input.audio.data,
    )]);
    let frames = decode_audio(&msg, 24_000);
    assert_eq!(frames, vec![PcmFrame::new(frame.samples.clone(), 24_000)]);
}

#[test]
fn decode_audio_skips_other_parts() {
    let msg = message(vec![
        ("text/plain", "AQACAA=="),
        ("audio/pcm;rate=24000", "not base64!"),
        ("audio/pcm", "AwA="),
    ]);
    let frames = decode_audio(&msg, 24_000);
    assert_eq!(frames, vec![PcmFrame::new(vec![3], 24_000)]);
    let no_turn = ServerMessage {
        server_content: Some(ServerContent { model_turn: None }),
        setup_complete: None,
    };
    assert!(decode_audio(&no_turn, 24_000).is_empty());
}

#[test]
fn backoff_doubles_up_to_eight_seconds() {
    assert_eq!(next_backoff_ms(500), 1000);
    assert_eq!(next_backoff_ms(4000), 8000);
    assert_eq!(next_backoff_ms(8000), 8000);
    assert_eq!(next_backoff_ms(0), 0);
}

#[test]
fn forward_decoded_keeps_newest_and_detects_close() {
    let (tx, mut rx) = mpsc::channel(1);
    let mut tx = FrameSender::new(tx);
    let mut pending = Vec::new();
    let msg = message(vec![("audio/pcm", "AQA="), ("audio/pcm", "AgA="), ("audio/pcm", "AwA=")]);
    forward_decoded(&mut tx, &mut pending, &msg, 24_000).unwrap();
    assert_eq!(rx.try_recv().unwrap().samples, vec![1]);
    assert_eq!(pending, vec![PcmFrame::new(vec![3], 24_000)]);
    let mut untouched = vec![PcmFrame::new(vec![9], 24_000)];
    forward_decoded(&mut tx, &mut untouched, &ServerMessage::default(), 24_000).unwrap();
    assert_eq!(untouched.len(), 1);
    drop(rx);
    let mut pending = Vec::new();
    assert!(forward_decoded(&mut tx, &mut pending, &msg, 24_000).is_err());
    assert!(pending.is_empty());
}

#[test]
fn arg_value_reads_following_argument() {
    let args: Vec<String> = ["cli", "--target", "ja", "--in-device", "Mic", "--target"]
        .iter()
        .map(|s| s.to_string())
        .collect();
    assert_eq!(arg_value(&args, "--target"), Some("ja".to_string()));
    assert_eq!(arg_value(&args, "--in-device"), Some("Mic".to_string()));
    assert_eq!(arg_value(&args, "--out-device"), None);
    let tail: Vec<String> = vec!["cli".into(), "--target".into()];
    assert_eq!(arg_value(&tail, "--target"), None);
}

struct FixedBackend {
    inputs: Arc<Mutex<Vec<DeviceInfo>>>,
    outputs: Vec<DeviceInfo>,
    fail_outputs: bool,
}

impl AudioBackend for FixedBackend {
    fn list_inputs(&self) -> Result<Vec<DeviceInfo>, AudioError> {
        Ok(self.inputs.lock().unwrap().clone())
    }

    fn list_outputs(&self) -> Result<Vec<DeviceInfo>, AudioError> {
        if self.fail_outputs {
            Err(AudioError::DeviceNotFound("outputs".into()))
        } else {
            Ok(self.outputs.clone())
        }
    }

    fn open_input(
        &self,
        _: &DeviceId,
        _: StreamCfg,
    ) -> Result<(Box<dyn InputStream>, AudioConsumer), AudioError> {
        Err(AudioError::OpenStream("none".into()))
    }

    fn open_output(
        &self,
        _: &DeviceId,
        _: StreamCfg,
    ) -> Result<(Box<dyn OutputStream>, AudioProducer), AudioError> {
        Err(AudioError::OpenStream("none".into()))
    }

    fn watch_devices(&self) -> Result<DeviceWatchHandle, AudioError> {
        Err(AudioError::OpenStream("none".into()))
    }
}

#[test]
fn manager_queries_current_snapshot() {
    let inputs = Arc::new(Mutex::new(vec![
        dev("Mic", false, false),
        dev("BlackHole 2ch", true, true),
    ]));
    let backend = FixedBackend {
        inputs: inputs.clone(),
        outputs: vec![dev("Speakers", true, false), dev("CABLE Input", false, true)],
        fail_outputs: false,
    };
    let mgr = DeviceManager::new(backend).unwrap();
    assert_eq!(mgr.default_for(Direction::Input).unwrap().name, "BlackHole 2ch");
    assert_eq!(mgr.default_for(Direction::Output).unwrap().name, "Speakers");
    let names = |u: DeviceUse| -> Vec<String> {
        mgr.pick_use(u).iter().map(|d| d.name.clone()).collect()
    };
    assert_eq!(names(DeviceUse::VirtualSpeaker), vec!["BlackHole 2ch".to_string()]);
    assert_eq!(names(DeviceUse::VirtualMic), vec!["CABLE Input".to_string()]);
    assert_eq!(
        names(DeviceUse::Physical),
        vec!["Mic".to_string(), "Speakers".to_string()]
    );
    assert!(mgr.resolve(&DeviceId("Mic".into()), Direction::Input).is_some());
    assert!(mgr.resolve(&DeviceId("Mic".into()), Direction::Output).is_none());
}

#[test]
fn manager_fails_with_backend_error() {
    let backend = FixedBackend {
        inputs: Arc::new(Mutex::new(vec![])),
        outputs: vec![],
        fail_outputs: true,
    };
    assert!(matches!(
        DeviceManager::new(backend),
        Err(AudioError::DeviceNotFound(_))
    ));
}

#[test]
fn unchanged_snapshot_has_empty_diff() {
    let s = DeviceSnapshot {
        inputs: vec![dev("A", true, false), dev("B", false, false)],
        outputs: vec![dev("C", true, false)],
    };
    assert!(diff_snapshots(&s, &s.clone()).is_empty());
}

#[test]
fn diff_orders_inputs_before_outputs_and_skips_vanished_default() {
    let prev = DeviceSnapshot {
        inputs: vec![dev("A", true, false)],
        outputs: vec![dev("O", false, false)],
    };
    let next = DeviceSnapshot {
        inputs: vec![],
        outputs: vec![dev("O", true, false), dev("P", false, false)],
    };
    assert_eq!(
        diff_snapshots(&prev, &next),
        vec![
            DeviceEvent::Removed {
                id: DeviceId("A".into()),
                dir: Direction::Input
            },
            DeviceEvent::Added {
                id: DeviceId("P".into()),
                dir: Direction::Output
            },
            DeviceEvent::DefaultChanged {
                dir: Direction::Output,
                new: DeviceId("O".into())
            },
        ]
    );
}

#[test]
fn device_info_from_name_marks_default_and_virtual() {
    let d = device_info_from_name("BlackHole 2ch".into(), &Some("BlackHole 2ch".into()));
    assert_eq!(d.id, DeviceId("BlackHole 2ch".into()));
    assert!(d.is_default && d.is_virtual);
    let p = device_info_from_name("Mic".into(), &Some("Other".into()));
    assert!(!p.is_default && !p.is_virtual);
    assert!(!device_info_from_name("Mic".into(), &None).is_default);
}

#[test]
fn route_error_messages() {
    assert_eq!(RouteError::DeviceNotFound("X".into()).message(), "设备未找到: X");
    assert_eq!(
        RouteError::SourceSinkOverlap("Y".into()).message(),
        "物理隔离冲突: 注入设备 Y 与采集设备相同/重叠，拒绝启动"
    );
    assert_eq!(
        RouteError::VirtualLoopback("Z".into()).message(),
        "输出回流虚拟采集设备 Z，可能形成自激环路"
    );
}

#[test]
fn listings_combine_into_snapshot_or_first_error() {
    let ok = snapshot_from_listings(Ok(vec![dev("I", true, false)]), Ok(vec![dev("O", false, false)]))
        .unwrap();
    assert_eq!(ok.inputs, vec![dev("I", true, false)]);
    assert_eq!(ok.outputs, vec![dev("O", false, false)]);
    assert!(matches!(
        snapshot_from_listings(
            Err(AudioError::OpenStream("in".into())),
            Err(AudioError::DeviceNotFound("out".into()))
        ),
        Err(AudioError::OpenStream(m)) if m == "in"
    ));
    assert!(matches!(
        snapshot_from_listings(Ok(vec![]), Err(AudioError::DeviceNotFound("out".into()))),
        Err(AudioError::DeviceNotFound(m)) if m == "out"
    ));
}

#[test]
fn manager_applies_listing_or_keeps_snapshot() {
    let backend = FixedBackend {
        inputs: Arc::new(Mutex::new(vec![dev("Mic", true, false)])),
        outputs: vec![],
        fail_outputs: false,
    };
    let failed = DeviceManager::from_listing(
        FixedBackend {
            inputs: Arc::new(Mutex::new(vec![])),
            outputs: vec![],
            fail_outputs: false,
        },
        Err(AudioError::OpenStream("x".into())),
    );
    assert!(matches!(failed, Err(AudioError::OpenStream(_))));
    let start = DeviceSnapshot {
        inputs: vec![dev("Mic", true, false)],
        outputs: vec![],
    };
    let mut mgr = DeviceManager::from_listing(backend, Ok(start.clone())).unwrap();
    assert_eq!(*mgr.snapshot(), start);
    assert!(mgr.apply_listing(Err(AudioError::OpenStream("busy".into()))).is_err());
    assert_eq!(*mgr.snapshot(), start);
    let next = DeviceSnapshot {
        inputs: vec![],
        outputs: vec![dev("Spk", false, false)],
    };
    assert_eq!(mgr.apply_listing(Ok(next.clone())).unwrap(), next);
    assert_eq!(*mgr.snapshot(), next);
}

#[test]
fn guard_with_hold_of_one_pauses_on_first_suspected_frame() {
    for hold in [0u16, 1] {
        let (state, action) = step_guard(LoopGuardState::Clear, true, hold, 3);
        assert_eq!(state, LoopGuardState::Paused { clear_streak: 0 });
        assert_eq!(action, Some(GuardAction::Pause));
    }
    let mut g = LoopGuardCore::new(8, 1, 1);
    assert_eq!(g.settle_verdict(Some(true)), Some(LoopPipelineAction::Pause));
    assert_eq!(g.settle_verdict(None), Some(LoopPipelineAction::Resume));
    assert_eq!(g.settle_verdict(None), None);
    assert!(!g.is_paused());
}

#[test]
fn mime_rate_is_written_in_decimal() {
    let zero = encode_input(&PcmFrame::new(vec![], 0));
    assert_eq!(zero.realtime_input.audio.mime_type, "audio/pcm;rate=0");
    assert_eq!(zero.realtime_input.audio.data, "");
    let max = encode_input(&PcmFrame::new(vec![0], u32::MAX));
    assert_eq!(max.realtime_input.audio.mime_type, "audio/pcm;rate=4294967295");
}
