use stage_dmx::config::{SacnConfig, SacnMode};
use stage_dmx::errors::DmxError;
use stage_dmx::listener::SacnListener;
use stage_dmx::mapper::{ChangeEvent, MonitorEntry};
use stage_dmx::sender::SacnTestSender;

fn multicast_config(universe: u16) -> SacnConfig {
    SacnConfig {
        universe,
        mode: SacnMode::Multicast,
        ip_address: String::new(),
        unicast_ip: String::new(),
        network_interface: String::new(),
    }
}

#[test]
fn start_answers_with_bind_plan() {
    let mut l = SacnListener::new(multicast_config(4));
    let plan = l.start().expect("start should succeed");
    assert_eq!(plan.port, 5568);
    assert_eq!(plan.universe, 4);
    assert!(plan.join_multicast);
    assert_eq!(plan.octets, (0, 0, 0, 0));
    assert!(l.is_running());
}

#[test]
fn start_uses_configured_interface_address() {
    let mut cfg = multicast_config(1);
    cfg.ip_address = "192.168.0.175".to_string();
    let mut l = SacnListener::new(cfg);
    let plan = l.start().expect("start should succeed");
    assert_eq!(plan.octets, (192, 168, 0, 175));
}

#[test]
fn start_rejects_bad_interface_address() {
    let mut cfg = multicast_config(1);
    cfg.ip_address = "not-an-ip".to_string();
    let mut l = SacnListener::new(cfg);
    assert!(matches!(l.start(), Err(DmxError::InvalidConfig)));
    assert!(!l.is_running());
}

#[test]
fn second_start_is_already_running() {
    let mut l = SacnListener::new(multicast_config(1));
    l.start().expect("first start");
    assert!(matches!(l.start(), Err(DmxError::AlreadyRunning)));
    assert!(l.is_running());
}

#[test]
fn unicast_with_empty_ip_is_invalid_config() {
    let cfg = SacnConfig {
        universe: 1,
        mode: SacnMode::Unicast,
        ip_address: String::new(),
        unicast_ip: String::new(),
        network_interface: String::new(),
    };
    let mut l = SacnListener::new(cfg);
    assert!(matches!(l.start(), Err(DmxError::InvalidConfig)));
    assert!(!l.is_running());
}

#[test]
fn unicast_binds_wildcard_without_multicast() {
    let cfg = SacnConfig {
        universe: 9,
        mode: SacnMode::Unicast,
        ip_address: String::new(),
        unicast_ip: "10.0.0.8".to_string(),
        network_interface: String::new(),
    };
    let mut l = SacnListener::new(cfg);
    let plan = l.start().expect("start should succeed");
    assert_eq!(plan.octets, (0, 0, 0, 0));
    assert!(!plan.join_multicast);
}

#[test]
fn restart_after_stop_succeeds() {
    // start -> stop -> start in immediate sequence never reports the
    // instance as already running or its configuration as invalid
    let mut l = SacnListener::new(multicast_config(2));
    l.start().expect("first start");
    l.stop().expect("stop a running listener");
    assert!(!l.is_running());
    l.start().expect("second start after stop");
    assert!(l.is_running());
}

#[test]
fn stop_when_not_running_errors() {
    let mut l = SacnListener::new(multicast_config(1));
    assert!(matches!(l.stop(), Err(DmxError::NotRunning)));
    assert!(matches!(l.signal_stop(), Err(DmxError::NotRunning)));
}

#[test]
fn signal_stop_clears_running_flag() {
    let mut l = SacnListener::new(multicast_config(1));
    l.start().expect("start");
    l.signal_stop().expect("signal stop");
    assert!(!l.is_running());
}

#[test]
fn bind_failed_leaves_not_running() {
    let mut l = SacnListener::new(multicast_config(1));
    l.start().expect("start");
    l.bind_failed();
    assert!(!l.is_running());
    // and the instance can be retried from that state
    l.start().expect("retry after failed bind");
}

#[test]
fn malformed_frames_are_decode_errors() {
    let mut l = SacnListener::new(multicast_config(1));
    l.start().expect("start");
    let empty: Vec<u8> = Vec::new();
    assert!(matches!(
        l.handle_packet(1, &empty),
        Err(DmxError::DecodeError)
    ));
    let oversized = vec![0u8; 514];
    assert!(matches!(
        l.handle_packet(1, &oversized),
        Err(DmxError::DecodeError)
    ));
}

#[test]
fn other_universe_is_silently_discarded() {
    let mut l = SacnListener::new(multicast_config(1));
    l.add_monitor(MonitorEntry {
        monitor_id: 0,
        start_channel: 10,
        folder_files: Vec::new(),
    });
    l.start().expect("start");
    let mut values = vec![0u8; 513];
    values[10] = 5;
    let events = l.handle_packet(2, &values).expect("discarded, not an error");
    assert!(events.is_empty());
}

#[test]
fn sink_failure_threshold_stops_listener() {
    let mut l = SacnListener::new(multicast_config(1));
    l.start().expect("start");
    l.record_sink_result(false);
    l.record_sink_result(false);
    assert!(l.is_running());
    // a delivery in between resets the count
    l.record_sink_result(true);
    l.record_sink_result(false);
    l.record_sink_result(false);
    assert!(l.is_running());
    // the third consecutive failure triggers the self-stop
    l.record_sink_result(false);
    assert!(!l.is_running());
}

#[test]
fn sender_listener_round_trip() {
    // a loopback at the wire-format level: the test sender's frame, decoded
    // by a listener on the same universe with an empty cache
    let mut sender = SacnTestSender::new(3, "loopback test");
    let frame = sender
        .send_three_channel_test(10, 5, 128, 2)
        .expect("channels 10..=12 are valid");

    let mut l = SacnListener::new(multicast_config(3));
    l.add_monitor(MonitorEntry {
        monitor_id: 0,
        start_channel: 10,
        folder_files: Vec::new(),
    });
    l.start().expect("start");
    let events = l.handle_packet(3, &frame.values).expect("matching frame");

    // in order: the clip update (with its resolved clip event), the dimmer
    // update with its dimmer event, then the playtype update
    assert_eq!(events.len(), 5);
    assert!(matches!(
        &events[0],
        ChangeEvent::DmxUpdate(u) if u.universe == 3 && u.channel == 10 && u.value == 5
    ));
    assert!(matches!(
        &events[1],
        ChangeEvent::ClipChange { dmx_value: 5, .. }
    ));
    assert!(matches!(
        &events[2],
        ChangeEvent::DmxUpdate(u) if u.channel == 11 && u.value == 128
    ));
    match &events[3] {
        ChangeEvent::DimmerChange { value, .. } => {
            let level = *value as f32 / 255.0;
            assert!((level - 0.502).abs() < 0.001);
        }
        other => panic!("expected DimmerChange, got {:?}", other),
    }
    assert!(matches!(
        &events[4],
        ChangeEvent::DmxUpdate(u) if u.channel == 12 && u.value == 2
    ));

    // the same frame again is fully debounced
    let again = l.handle_packet(3, &frame.values).expect("matching frame");
    assert!(again.is_empty());
}

#[test]
fn fresh_start_resets_debounce_state() {
    let mut l = SacnListener::new(multicast_config(1));
    l.add_monitor(MonitorEntry {
        monitor_id: 0,
        start_channel: 10,
        folder_files: Vec::new(),
    });
    l.start().expect("start");
    let mut values = vec![0u8; 513];
    values[10] = 5;
    let first = l.handle_packet(1, &values).expect("frame");
    assert!(!first.is_empty());
    let second = l.handle_packet(1, &values).expect("frame");
    assert!(second.is_empty());
    // stop and restart: the cache is created empty again, so the same
    // value re-emits
    l.stop().expect("stop");
    l.start().expect("restart");
    let third = l.handle_packet(1, &values).expect("frame");
    assert!(!third.is_empty());
}

#[test]
fn channel_floor_keeps_low_zeros_observable() {
    let mut l = SacnListener::new(multicast_config(1));
    l.add_monitor(MonitorEntry {
        monitor_id: 0,
        start_channel: 10,
        folder_files: Vec::new(),
    });
    l.start().expect("start");
    let mut on = vec![0u8; 513];
    on[10] = 9;
    l.handle_packet(1, &on).expect("frame");
    // a short all-zero frame: the floor of 50 still covers channel 10,
    // so the transition back to zero is emitted
    let off = vec![0u8; 1];
    let events = l.handle_packet(1, &off).expect("frame");
    assert!(matches!(
        &events[0],
        ChangeEvent::DmxUpdate(u) if u.channel == 10 && u.value == 0
    ));
}
