use translate::audio::backend::{is_virtual_device_name, DeviceWatchHandle, RawDeviceEvent};
use translate::audio::frame::PcmFrame;
use translate::audio::ring::audio_channel;

#[test]
fn detects_virtual_devices_by_name() {
    assert!(is_virtual_device_name("BlackHole 2ch"));
    assert!(is_virtual_device_name("CABLE Output (VB-Audio Virtual Cable)"));
    assert!(!is_virtual_device_name("MacBook Pro Microphone"));
    assert!(!is_virtual_device_name("Realtek High Definition Audio"));
}

#[test]
fn watch_handle_relays_raw_event() {
    let (tx, rx) = std::sync::mpsc::channel();
    let h = DeviceWatchHandle::new(rx);
    assert!(h.try_recv().is_none());
    tx.send(RawDeviceEvent::ListChanged {
        inputs: vec![],
        outputs: vec![],
    })
    .unwrap();
    assert!(matches!(
        h.try_recv(),
        Some(RawDeviceEvent::ListChanged { .. })
    ));
}

#[test]
fn le_bytes_roundtrip() {
    let frame = PcmFrame::new(vec![-1, 0, 1, 256], 16_000);
    let bytes = frame.to_le_bytes();
    assert_eq!(bytes.len(), 8);
    let back = PcmFrame::from_le_bytes(&bytes, 16_000);
    assert_eq!(back, frame);
}

#[test]
fn push_then_pop_roundtrip() {
    let (mut prod, mut cons) = audio_channel(8);
    assert_eq!(prod.push_slice(&[1, 2, 3]), 3);
    let mut out = [0i16; 4];
    assert_eq!(cons.pop_slice(&mut out), 3);
    assert_eq!(&out[..3], &[1, 2, 3]);
}

#[test]
fn push_drops_overflow_without_blocking() {
    let (mut prod, mut cons) = audio_channel(4);
    assert_eq!(prod.push_slice(&[1, 2, 3, 4, 5, 6]), 4);
    let mut out = [0i16; 4];
    assert_eq!(cons.pop_slice(&mut out), 4);
    assert_eq!(out, [1, 2, 3, 4]);
}
