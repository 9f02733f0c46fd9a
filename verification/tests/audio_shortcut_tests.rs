use jingzhuo::audio::{audio_log_path, capture_tick, raw_sample, RawSample, SampleFormatKind};
use jingzhuo::paths::{ComponentKind, PathComponent, PathText};
use jingzhuo::audio::{analysis_start, push_ring_samples, FFT_WINDOW_SIZE, RING_WINDOW_SIZE};
use jingzhuo::shortcuts::{
    ai_shortcut, event_for, quit_shortcut, shortcut_action, toolbar_shortcut, wheel_shortcut,
    KeyCode, ShortcutAction, ShortcutKey, EVENT_AI_OPEN, EVENT_TOOLBAR_OPEN, EVENT_WHEEL_OPEN,
};

#[test]
fn ring_appends_and_keeps_the_newest() {
    let mut ring: Vec<u32> = vec![1, 2, 3];
    push_ring_samples(&mut ring, vec![]);
    assert_eq!(ring, vec![1, 2, 3]);
    push_ring_samples(&mut ring, vec![4, 5]);
    assert_eq!(ring, vec![1, 2, 3, 4, 5]);
    let big: Vec<u32> = (0..(RING_WINDOW_SIZE as u32 + 10)).collect();
    push_ring_samples(&mut ring, big);
    assert_eq!(ring.len(), RING_WINDOW_SIZE);
    assert_eq!(ring[0], 10);
    assert_eq!(*ring.last().unwrap(), RING_WINDOW_SIZE as u32 + 9);
}

#[test]
fn ring_stays_bounded_over_many_pushes() {
    let mut ring: Vec<u32> = Vec::new();
    for k in 0..50u32 {
        let chunk: Vec<u32> = (k * 480..(k + 1) * 480).collect();
        push_ring_samples(&mut ring, chunk.clone());
        assert!(ring.len() <= RING_WINDOW_SIZE);
        assert_eq!(&ring[ring.len() - 480..], &chunk[..]);
    }
}

#[test]
fn analysis_needs_enough_samples_and_a_rate() {
    assert_eq!(analysis_start(255, 48000), None);
    assert_eq!(analysis_start(256, 48000), Some(0));
    assert_eq!(analysis_start(1000, 0), None);
    assert_eq!(analysis_start(FFT_WINDOW_SIZE, 44100), Some(0));
    assert_eq!(analysis_start(RING_WINDOW_SIZE, 44100), Some(RING_WINDOW_SIZE - FFT_WINDOW_SIZE));
}

#[test]
fn shortcuts_map_to_actions() {
    assert_eq!(shortcut_action(true, &toolbar_shortcut()), Some(ShortcutAction::OpenToolbar));
    assert_eq!(shortcut_action(true, &wheel_shortcut()), Some(ShortcutAction::OpenWheel));
    assert_eq!(shortcut_action(true, &ai_shortcut()), Some(ShortcutAction::OpenAi));
    assert_eq!(shortcut_action(true, &quit_shortcut()), Some(ShortcutAction::Quit));
    assert_eq!(shortcut_action(false, &quit_shortcut()), None);
    let other = ShortcutKey { control: false, alt: false, shift: false, super_key: false, key: KeyCode::KeyT };
    assert_eq!(shortcut_action(true, &other), None);
    let with_super = ShortcutKey { super_key: true, ..toolbar_shortcut() };
    assert_eq!(shortcut_action(true, &with_super), None);
}

#[test]
fn actions_map_to_events() {
    assert_eq!(event_for(ShortcutAction::OpenToolbar), Some(EVENT_TOOLBAR_OPEN));
    assert_eq!(event_for(ShortcutAction::OpenWheel), Some(EVENT_WHEEL_OPEN));
    assert_eq!(event_for(ShortcutAction::OpenAi), Some(EVENT_AI_OPEN));
    assert_eq!(event_for(ShortcutAction::Quit), None);
    assert_eq!(EVENT_WHEEL_OPEN, "jingzhuo-wheel-open");
}

#[test]
fn the_four_shortcuts_differ() {
    let all = [toolbar_shortcut(), wheel_shortcut(), ai_shortcut(), quit_shortcut()];
    for i in 0..4 {
        for j in 0..4 {
            assert_eq!(all[i] == all[j], i == j);
        }
    }
}

#[test]
fn capture_ticks_pace_the_payloads() {
    let t = capture_tick(10, 100, 33);
    assert!(t.active && t.emit);
    let t = capture_tick(10, 100, 32);
    assert!(t.active && !t.emit);
    let t = capture_tick(10, 250, 99);
    assert!(!t.active && !t.emit);
    let t = capture_tick(0, 0, 100);
    assert!(!t.active && t.emit);
}

#[test]
fn audio_log_location() {
    let roaming = PathText {
        text: "C:\\R".to_string(),
        components: vec![
            PathComponent { kind: ComponentKind::Prefix, text: "C:".to_string(), key: vec![5, b'C'] },
            PathComponent { kind: ComponentKind::RootDir, text: "\\".to_string(), key: vec![] },
            PathComponent { kind: ComponentKind::Normal, text: "R".to_string(), key: b"R".to_vec() },
        ],
    };
    assert_eq!(audio_log_path(Some(roaming)).text, "C:\\R\\Jingzhuo\\audio-diagnostics.log");
    assert_eq!(audio_log_path(None).text, "audio-diagnostics.log");
}

#[test]
fn samples_are_read_little_endian() {
    let pcm16 = [0x34u8, 0x12, 0xff, 0xff, 0x00, 0x80];
    assert_eq!(raw_sample(&pcm16, 0, 0, 16, SampleFormatKind::Pcm), RawSample::Int16(0x1234));
    assert_eq!(raw_sample(&pcm16, 0, 1, 16, SampleFormatKind::Pcm), RawSample::Int16(-1));
    assert_eq!(raw_sample(&pcm16, 4, 0, 16, SampleFormatKind::Pcm), RawSample::Int16(i16::MIN));
    assert_eq!(raw_sample(&pcm16, 4, 1, 16, SampleFormatKind::Pcm), RawSample::Silent);
    let pcm24 = [0xff, 0xff, 0x7f, 0x00, 0x00, 0x80];
    assert_eq!(raw_sample(&pcm24, 0, 0, 24, SampleFormatKind::Pcm), RawSample::Int24(8_388_607));
    assert_eq!(raw_sample(&pcm24, 0, 1, 24, SampleFormatKind::Pcm), RawSample::Int24(-8_388_608));
    let word = 0.5f32.to_bits().to_le_bytes();
    assert_eq!(raw_sample(&word, 0, 0, 32, SampleFormatKind::Float), RawSample::FloatBits(0.5f32.to_bits()));
    assert_eq!(raw_sample(&word, 0, 0, 32, SampleFormatKind::Pcm), RawSample::Int32(i32::from_le_bytes(word)));
    assert_eq!(raw_sample(&word, 0, 0, 32, SampleFormatKind::Unknown), RawSample::Silent);
    assert_eq!(raw_sample(&word, 0, 0, 8, SampleFormatKind::Pcm), RawSample::Silent);
    assert_eq!(raw_sample(&word, 0, 0, 16, SampleFormatKind::Float), RawSample::Silent);
}
