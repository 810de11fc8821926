use stage_dmx::mapper::{process_frame, ChangeEvent, ChannelCache, MonitorEntry};

fn monitor(start: u16) -> MonitorEntry {
    MonitorEntry {
        monitor_id: 1,
        start_channel: start,
        folder_files: Vec::new(),
    }
}

fn frame_with(pairs: &[(usize, u8)]) -> Vec<u8> {
    let mut values = vec![0u8; 513];
    for &(c, v) in pairs {
        values[c] = v;
    }
    values
}

#[test]
fn debounce_same_value_emits_once() {
    let mut cache = ChannelCache::new();
    let m = monitor(100);
    let values = frame_with(&[(100, 42)]);
    let first = process_frame(&mut cache, &m, 1, &values, 512);
    // with an empty cache every channel counts as changed: the clip update
    // with its clip event, then the dimmer update with its dimmer event,
    // then the playtype update
    assert_eq!(first.len(), 5);
    assert!(matches!(
        &first[0],
        ChangeEvent::DmxUpdate(u) if u.channel == 100 && u.value == 42
    ));
    assert!(matches!(
        &first[1],
        ChangeEvent::ClipChange { dmx_value: 42, .. }
    ));
    assert!(matches!(
        &first[2],
        ChangeEvent::DmxUpdate(u) if u.channel == 101 && u.value == 0
    ));
    assert!(matches!(&first[3], ChangeEvent::DimmerChange { value: 0, .. }));
    assert!(matches!(
        &first[4],
        ChangeEvent::DmxUpdate(u) if u.channel == 102 && u.value == 0
    ));
    // the same frame again: every channel unchanged, nothing is emitted
    let second = process_frame(&mut cache, &m, 1, &values, 512);
    assert_eq!(second.len(), 0);
}

#[test]
fn debounce_keeps_no_history() {
    let mut cache = ChannelCache::new();
    let m = monitor(100);
    let frame_a = frame_with(&[(100, 7)]);
    let frame_b = frame_with(&[(100, 9)]);
    // A, then B, then A again: three emissions, no long-term history
    let e1 = process_frame(&mut cache, &m, 1, &frame_a, 512);
    let e2 = process_frame(&mut cache, &m, 1, &frame_b, 512);
    let e3 = process_frame(&mut cache, &m, 1, &frame_a, 512);
    assert!(!e1.is_empty());
    assert!(!e2.is_empty());
    assert!(!e3.is_empty());
    assert!(matches!(&e3[0], ChangeEvent::DmxUpdate(u) if u.value == 7));
}

#[test]
fn zero_clip_value_emits_no_clip_change() {
    let mut cache = ChannelCache::new();
    let m = monitor(100);
    // first a non-zero clip, then back to zero
    let on = frame_with(&[(100, 5)]);
    let off = frame_with(&[]);
    process_frame(&mut cache, &m, 1, &on, 512);
    let events = process_frame(&mut cache, &m, 1, &off, 512);
    assert_eq!(events.len(), 1);
    assert!(matches!(
        &events[0],
        ChangeEvent::DmxUpdate(u) if u.channel == 100 && u.value == 0
    ));
}

#[test]
fn dimmer_change_carries_raw_byte() {
    let mut cache = ChannelCache::new();
    let m = monitor(100);
    let values = frame_with(&[(101, 128)]);
    let events = process_frame(&mut cache, &m, 1, &values, 512);
    // the zero clip byte emits its update but no clip event; then the
    // dimmer update with its dimmer event; then the zero playtype update
    assert_eq!(events.len(), 4);
    assert!(matches!(
        &events[0],
        ChangeEvent::DmxUpdate(u) if u.channel == 100 && u.value == 0
    ));
    assert!(matches!(
        &events[1],
        ChangeEvent::DmxUpdate(u) if u.channel == 101 && u.value == 128
    ));
    match &events[2] {
        ChangeEvent::DimmerChange { value, .. } => {
            // normalization convention at the presentation edge:
            // byte 0 -> 0.0 exactly, byte 255 -> 1.0 exactly, 128 -> 128/255
            let level = *value as f32 / 255.0;
            assert!((level - 0.50196).abs() < 0.0001);
            assert_eq!(0u8 as f32 / 255.0, 0.0);
            assert_eq!(255u8 as f32 / 255.0, 1.0);
        }
        other => panic!("expected DimmerChange, got {:?}", other),
    }
}

#[test]
fn clip_change_resolves_filename() {
    let mut cache = ChannelCache::new();
    let m = MonitorEntry {
        monitor_id: 2,
        start_channel: 10,
        folder_files: vec!["005.jpg".to_string()],
    };
    let values = frame_with(&[(10, 5)]);
    let events = process_frame(&mut cache, &m, 1, &values, 512);
    match &events[1] {
        ChangeEvent::ClipChange {
            monitor_id,
            filename,
            dmx_value,
        } => {
            assert_eq!(*monitor_id, 2);
            assert_eq!(filename, "005.jpg");
            assert_eq!(*dmx_value, 5);
        }
        other => panic!("expected ClipChange, got {:?}", other),
    }
}

#[test]
fn channels_above_limit_are_not_processed() {
    let mut cache = ChannelCache::new();
    let m = monitor(100);
    let values = frame_with(&[(100, 3), (101, 4), (102, 5)]);
    // limit 100: only the clip channel is within the processed range
    let events = process_frame(&mut cache, &m, 1, &values, 100);
    assert_eq!(events.len(), 2);
    assert!(matches!(&events[0], ChangeEvent::DmxUpdate(u) if u.channel == 100));
}

#[test]
fn cache_lookup_and_update() {
    let mut cache = ChannelCache::new();
    assert_eq!(cache.lookup(1, 10), None);
    cache.update(1, 10, 200);
    assert_eq!(cache.lookup(1, 10), Some(200));
    cache.update(1, 10, 201);
    assert_eq!(cache.lookup(1, 10), Some(201));
    // a different monitor does not collide, even on the same channel
    assert_eq!(cache.lookup(2, 10), None);
    cache.update(2, 10, 7);
    assert_eq!(cache.lookup(1, 10), Some(201));
    assert_eq!(cache.lookup(2, 10), Some(7));
}
