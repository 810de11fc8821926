use stage_dmx::config::{
    AppConfig, LayoutMode, MonitorConfig, Orientation, PreviewMode, Resolution, SacnMode,
};
use stage_dmx::net::{parse_ipv4, select_network_interfaces, InterfaceInfo};

#[test]
fn monitor_channels_derive_by_fixed_offset() {
    let mut m = MonitorConfig::default();
    m.start_channel = 10;
    assert_eq!(m.clip_channel(), 10);
    assert_eq!(m.dimmer_channel(), 11);
    assert_eq!(m.playtype_channel(), 12);
}

#[test]
fn default_app_config_values() {
    let c = AppConfig::default();
    assert_eq!(c.sacn.universe, 1);
    assert_eq!(c.sacn.mode, SacnMode::Multicast);
    assert_eq!(c.sacn.ip_address, "0.0.0.0");
    assert_eq!(c.sacn.unicast_ip, "");
    assert_eq!(c.monitor1.name, "Monitor 1");
    assert_eq!(c.monitor1.start_channel, 1);
    assert_eq!(c.monitor2.name, "Monitor 2");
    assert_eq!(c.monitor2.start_channel, 10);
    assert_eq!(c.layout, LayoutMode::HorizontalSideBySide);
    assert_eq!(c.preview, PreviewMode::Listen);
    assert!(!c.production_mode);
    assert_eq!(
        c.monitor1.resolution,
        Resolution::HD {
            width: 1920,
            height: 1080
        }
    );
    assert_eq!(c.monitor1.orientation, Orientation::Horizontal);
    assert!(c.monitor1.enabled);
}

#[test]
fn ipv4_parses_dotted_quads() {
    assert_eq!(parse_ipv4("192.168.0.175"), Some((192, 168, 0, 175)));
    assert_eq!(parse_ipv4("0.0.0.0"), Some((0, 0, 0, 0)));
    assert_eq!(parse_ipv4("255.255.255.255"), Some((255, 255, 255, 255)));
    assert_eq!(parse_ipv4("001.002.003.004"), Some((1, 2, 3, 4)));
}

#[test]
fn ipv4_rejects_malformed_strings() {
    assert_eq!(parse_ipv4(""), None);
    assert_eq!(parse_ipv4("192.168.0"), None);
    assert_eq!(parse_ipv4("192.168.0.1.5"), None);
    assert_eq!(parse_ipv4("192.168..1"), None);
    assert_eq!(parse_ipv4("192.168.0.256"), None);
    assert_eq!(parse_ipv4("192.168.0.1000"), None);
    assert_eq!(parse_ipv4("a.b.c.d"), None);
    assert_eq!(parse_ipv4("192.168.0.17a"), None);
    assert_eq!(parse_ipv4("...."), None);
}

#[test]
fn interface_selection_keeps_non_loopback_v4() {
    let candidates = vec![
        InterfaceInfo {
            name: "lo".to_string(),
            ip_address: "127.0.0.1".to_string(),
            is_loopback: true,
            is_ipv4: true,
        },
        InterfaceInfo {
            name: "eth0".to_string(),
            ip_address: "192.168.0.2".to_string(),
            is_loopback: false,
            is_ipv4: true,
        },
        InterfaceInfo {
            name: "eth0".to_string(),
            ip_address: "fe80::1".to_string(),
            is_loopback: false,
            is_ipv4: false,
        },
    ];
    let selected = select_network_interfaces(&candidates);
    assert_eq!(selected.len(), 1);
    assert_eq!(selected[0].name, "eth0");
    assert_eq!(selected[0].ip_address, "192.168.0.2");
}
