use translate::dsp::vad::{
    classify_frame, frame_energy_rms, zero_crossing_rate, Vad, VadConfig, VadDecision, VadStats,
};

fn tone(amp: i16, n: usize) -> Vec<i16> {
    (0..n)
        .map(|i| if i % 2 == 0 { amp } else { -amp })
        .collect()
}

fn block(amp: i16, n: usize) -> Vec<i16> {
    (0..n).map(|i| if i < n / 2 { amp } else { -amp }).collect()
}

fn saved_ratio(stats: &VadStats) -> f64 {
    if stats.frames_total == 0 {
        0.0
    } else {
        stats.frames_dropped as f64 / stats.frames_total as f64
    }
}

#[test]
fn silence_frame_is_dropped() {
    let mut vad = Vad::new(VadConfig::default_uplink());
    assert_eq!(vad.observe(&[0i16; 480]), VadDecision::Drop);
    let mut stats = VadStats::default();
    let mut v2 = Vad::new(VadConfig::default_uplink());
    for _ in 0..100 {
        stats.record(v2.observe(&[0i16; 480]));
    }
    assert_eq!(stats.frames_sent, 0);
    assert!((saved_ratio(&stats) - 1.0).abs() < 1e-9);
}

#[test]
fn loud_speech_frame_is_sent_after_attack() {
    let cfg = VadConfig::default_uplink();
    let mut vad = Vad::new(cfg);
    let loud = tone(8000, 480);
    for _ in 0..cfg.attack_frames {
        let _ = vad.observe(&loud);
    }
    assert_eq!(vad.observe(&loud), VadDecision::Send);
    assert!(vad.is_speaking());
}

#[test]
fn hysteresis_prevents_flapping_on_borderline_rms() {
    let cfg = VadConfig::default_uplink();
    let border = tone(450, 480);
    let mut from_silence = Vad::new(cfg);
    assert_eq!(from_silence.observe(&border), VadDecision::Drop);
    let mut speaking = Vad::new(cfg);
    let loud = tone(8000, 480);
    for _ in 0..(cfg.attack_frames + 1) {
        let _ = speaking.observe(&loud);
    }
    assert_eq!(speaking.observe(&border), VadDecision::Send);
}

#[test]
fn hangover_keeps_sending_tail_after_speech_stops() {
    let cfg = VadConfig::default_uplink();
    let mut vad = Vad::new(cfg);
    let loud = tone(8000, 480);
    for _ in 0..(cfg.attack_frames + 1) {
        let _ = vad.observe(&loud);
    }
    let silence = [0i16; 480];
    for _ in 0..cfg.hangover_frames {
        assert_eq!(vad.observe(&silence), VadDecision::Send);
    }
    assert_eq!(vad.observe(&silence), VadDecision::Drop);
    assert!(!vad.is_speaking());
}

#[test]
fn frame_energy_rms_is_pure_and_correct() {
    assert_eq!(frame_energy_rms(&[0i16; 256]), 0);
    assert!((frame_energy_rms(&[3000; 256]) as i32 - 3000).abs() <= 1);
    assert_eq!(frame_energy_rms(&[]), 0);
}

#[test]
fn sustained_ambient_noise_below_threshold_never_opens() {
    let cfg = VadConfig::default_uplink();
    let mut vad = Vad::new(cfg);
    let noise = block(800, 480);
    let mut sends = 0;
    for _ in 0..200 {
        if vad.observe(&noise) == VadDecision::Send {
            sends += 1;
        }
    }
    assert_eq!(sends, 0, "环境噪声被误判为语音");
    assert!(!vad.is_speaking());
    assert!(vad.noise_floor() >= 600, "floor={}", vad.noise_floor());
}

#[test]
fn loud_speech_opens_even_with_elevated_noise_floor() {
    let cfg = VadConfig::default_uplink();
    let mut vad = Vad::new(cfg);
    for _ in 0..100 {
        let _ = vad.observe(&block(800, 480));
    }
    let loud = block(9000, 480);
    let mut opened = false;
    for _ in 0..(cfg.attack_frames + 1) {
        if vad.observe(&loud) == VadDecision::Send {
            opened = true;
        }
    }
    assert!(opened, "嘈杂环境下真实大声语音应能开启");
}

#[test]
fn high_zcr_low_energy_classified_as_noise_not_speech() {
    let cfg = VadConfig::default_uplink();
    let noise = tone(200, 480);
    assert!(zero_crossing_rate(&noise) > cfg.zcr_noise_max);
    assert!(!classify_frame(&noise, &cfg, false));
    let mut vad = Vad::new(cfg);
    assert_eq!(vad.observe(&noise), VadDecision::Drop);
}
