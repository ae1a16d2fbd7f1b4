use tokio::sync::mpsc;
use translate::audio::backend::{DeviceId, DeviceInfo};
use translate::audio::frame::PcmFrame;
use translate::gemini::session::FrameSender;
use translate::engine::control::{worst_state, SessionState, SourceLang, TranslateMode};
use translate::engine::link::{
    append_bounded_downstream, enqueue_latest_upstream, ReconnectBudget, ReconnectDecision,
};
use translate::engine::route::{
    active_links, build_routes, validate_isolation, LinkIntent, RouteError, RouteSpec,
};

#[test]
fn worst_picks_error_over_running() {
    let up = SessionState::Running;
    let down = SessionState::Error("net".into());
    assert_eq!(worst_state(&up, &down), SessionState::Error("net".into()));
}

#[test]
fn worst_picks_reconnecting_over_running() {
    let up = SessionState::Reconnecting { attempt: 2 };
    let down = SessionState::Running;
    assert_eq!(
        worst_state(&up, &down),
        SessionState::Reconnecting { attempt: 2 }
    );
}

#[test]
fn both_running_is_running() {
    assert_eq!(
        worst_state(&SessionState::Running, &SessionState::Running),
        SessionState::Running
    );
}

#[test]
fn worst_picks_paused_over_reconnecting() {
    let up = SessionState::Paused;
    let down = SessionState::Reconnecting { attempt: 2 };
    assert_eq!(worst_state(&up, &down), SessionState::Paused);
}

#[test]
fn worst_picks_error_over_paused() {
    assert_eq!(
        worst_state(&SessionState::Error("net".into()), &SessionState::Paused),
        SessionState::Error("net".into())
    );
}

#[test]
fn reconnect_budget_retries_then_returns_to_running_budget() {
    let mut budget = ReconnectBudget::new(3);

    assert_eq!(
        budget.disconnected(),
        SessionState::Reconnecting { attempt: 1 }
    );
    assert!(matches!(
        budget.connect_failed("net".into()),
        ReconnectDecision::Retry(SessionState::Reconnecting { attempt: 2 })
    ));
    assert!(matches!(
        budget.connect_failed("net".into()),
        ReconnectDecision::Retry(SessionState::Reconnecting { attempt: 3 })
    ));
    assert!(matches!(
        budget.connect_failed("net".into()),
        ReconnectDecision::GiveUp(SessionState::Error(_))
    ));

    budget.connected();
    assert_eq!(
        budget.disconnected(),
        SessionState::Reconnecting { attempt: 1 }
    );
}

fn frame(sample: i16) -> PcmFrame {
    PcmFrame::new(vec![sample; 160], 16_000)
}

#[test]
fn upstream_backpressure_keeps_latest_pending_frame() {
    let (audio_tx, mut audio_rx) = mpsc::channel(1);
    let mut audio_tx = FrameSender::new(audio_tx);
    let mut pending = Vec::new();

    enqueue_latest_upstream(&mut audio_tx, &mut pending, frame(1)).unwrap();
    enqueue_latest_upstream(&mut audio_tx, &mut pending, frame(2)).unwrap();
    enqueue_latest_upstream(&mut audio_tx, &mut pending, frame(3)).unwrap();

    assert_eq!(audio_rx.try_recv().unwrap().samples[0], 1);
    assert_eq!(pending.len(), 1);
    assert_eq!(pending[0].samples[0], 3);
}

#[test]
fn downstream_pending_drops_oldest_to_bound_extra_latency() {
    let mut pending = vec![1, 2, 3, 4, 5, 6];
    let dropped = append_bounded_downstream(&mut pending, &[7, 8, 9, 10], 6);

    assert_eq!(dropped, 4);
    assert_eq!(pending, vec![5, 6, 7, 8, 9, 10]);
}

fn rdev(name: &str, virt: bool) -> DeviceInfo {
    DeviceInfo {
        id: DeviceId(name.into()),
        name: name.into(),
        is_default: false,
        is_virtual: virt,
    }
}

fn devs() -> Vec<DeviceInfo> {
    vec![
        rdev("PhysMic", false),
        rdev("VirtMic", true),
        rdev("VirtSpk", true),
        rdev("PhysHeadset", false),
    ]
}

fn intent(input: &str, output: &str, target: &str) -> LinkIntent {
    LinkIntent {
        in_dev: DeviceId(input.into()),
        out_dev: DeviceId(output.into()),
        target_lang: target.into(),
        source: SourceLang::Auto,
    }
}

fn spec(mode: TranslateMode) -> RouteSpec {
    RouteSpec {
        mode,
        uplink: intent("PhysMic", "VirtMic", "en"),
        downlink: intent("VirtSpk", "PhysHeadset", "zh"),
    }
}

#[test]
fn build_routes_uplink_only_drops_downlink() {
    let matrix = build_routes(&spec(TranslateMode::UplinkOnly), &devs()).unwrap();
    assert!(matrix.uplink.is_some() && matrix.downlink.is_none());
    assert_eq!(active_links(TranslateMode::UplinkOnly), (true, false));
    assert_eq!(active_links(TranslateMode::DownlinkOnly), (false, true));
    assert_eq!(active_links(TranslateMode::Bidirectional), (true, true));
}

#[test]
fn build_routes_bidirectional_lights_two_links() {
    let matrix = build_routes(&spec(TranslateMode::Bidirectional), &devs()).unwrap();
    let up = matrix.uplink.unwrap();
    let down = matrix.downlink.unwrap();
    assert_eq!(up.target_lang, "en");
    assert_eq!(down.target_lang, "zh");
    assert_eq!(down.source, SourceLang::Auto);
    assert_ne!(up.in_dev, up.out_dev);
    assert_ne!(up.in_dev, down.in_dev);
    assert_ne!(up.out_dev, down.out_dev);
    assert_ne!(down.in_dev, down.out_dev);
}

#[test]
fn validate_isolation_rejects_source_sink_overlap() {
    let mut route_spec = spec(TranslateMode::Bidirectional);
    route_spec.downlink.in_dev = DeviceId("VirtMic".into());
    let matrix = build_routes(&route_spec, &devs()).unwrap();
    assert!(matches!(
        validate_isolation(&matrix, &devs()),
        Err(RouteError::VirtualLoopback(_)) | Err(RouteError::SourceSinkOverlap(_))
    ));

    let ok = build_routes(&spec(TranslateMode::Bidirectional), &devs()).unwrap();
    assert_eq!(validate_isolation(&ok, &devs()), Ok(()));
}

#[test]
fn validate_isolation_rejects_output_to_virtual_capture() {
    let mut route_spec = spec(TranslateMode::Bidirectional);
    route_spec.uplink.out_dev = DeviceId("VirtSpk".into());
    let matrix = build_routes(&route_spec, &devs()).unwrap();
    assert!(matches!(
        validate_isolation(&matrix, &devs()),
        Err(RouteError::VirtualLoopback(_))
    ));
}

#[test]
fn build_routes_missing_device_errs() {
    let mut route_spec = spec(TranslateMode::Bidirectional);
    route_spec.uplink.in_dev = DeviceId("Ghost".into());
    assert!(matches!(
        build_routes(&route_spec, &devs()),
        Err(RouteError::DeviceNotFound(_))
    ));
}
