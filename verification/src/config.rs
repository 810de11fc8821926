use vstd::prelude::*;

verus! {

/// Resolution options for monitors.
#[derive(Clone, Copy, Debug, PartialEq, Eq, Structural)]
pub enum Resolution {
    HD { width: u32, height: u32 },
    FourK { width: u32, height: u32 },
    Custom { width: u32, height: u32 },
}

impl Default for Resolution {
    fn default() -> (r: Self)
        ensures
            r == (Resolution::HD { width: 1920, height: 1080 }),
    {
        Resolution::HD { width: 1920, height: 1080 }
    }
}

/// Monitor orientation.
#[derive(Clone, Copy, Debug, PartialEq, Eq, Structural)]
pub enum Orientation {
    Horizontal,
    Vertical,
}

impl Default for Orientation {
    fn default() -> (r: Self)
        ensures
            r == Orientation::Horizontal,
    {
        Orientation::Horizontal
    }
}

/// sACN reception mode: join a multicast group, or listen for packets
/// addressed directly to this host.
#[derive(Clone, Copy, Debug, PartialEq, Eq, Structural)]
pub enum SacnMode {
    Multicast,
    Unicast,
}

impl Default for SacnMode {
    fn default() -> (r: Self)
        ensures
            r == SacnMode::Multicast,
    {
        SacnMode::Multicast
    }
}

/// sACN configuration.
///
/// Invariant at start time: unicast mode requires a non-empty, parseable
/// `unicast_ip`; multicast mode uses `ip_address` (or the wildcard address)
/// to select the interface that joins the multicast group.
#[derive(Clone, Debug)]
pub struct SacnConfig {
    pub universe: u16,
    pub mode: SacnMode,
    pub ip_address: String,
    pub unicast_ip: String,
    pub network_interface: String,
}

impl Default for SacnConfig {
    fn default() -> (r: Self)
        ensures
            r.universe == 1,
            r.mode == SacnMode::Multicast,
            r.ip_address@ == "0.0.0.0"@,
            r.unicast_ip@ == Seq::<char>::empty(),
            r.network_interface@ == Seq::<char>::empty(),
    {
        SacnConfig {
            universe: 1,
            mode: SacnMode::Multicast,
            ip_address: String::from_str("0.0.0.0"),
            unicast_ip: String::new(),
            network_interface: String::new(),
        }
    }
}

/// Monitor configuration.
///
/// Three protocol channels are derived from `start_channel` by fixed offset:
/// clip at +0, dimmer at +1, playback type at +2. For all three to stay
/// within the valid channel range 1..=512, `start_channel` must lie in
/// 1..=510 (see [`MonitorConfig::wf`]).
#[derive(Clone, Debug)]
pub struct MonitorConfig {
    pub enabled: bool,
    pub name: String,
    pub start_channel: u16,
    pub media_folder: String,
    pub resolution: Resolution,
    pub orientation: Orientation,
    pub display_index: usize,
    pub window_x: Option<i32>,
    pub window_y: Option<i32>,
}

impl Default for MonitorConfig {
    fn default() -> (r: Self)
        ensures
            r.enabled,
            r.name@ == "Monitor"@,
            r.start_channel == 1,
            r.media_folder@ == Seq::<char>::empty(),
            r.resolution == (Resolution::HD { width: 1920, height: 1080 }),
            r.orientation == Orientation::Horizontal,
            r.display_index == 0,
            r.window_x is None,
            r.window_y is None,
            r.wf(),
    {
        MonitorConfig {
            enabled: true,
            name: String::from_str("Monitor"),
            start_channel: 1,
            media_folder: String::new(),
            resolution: Resolution::default(),
            orientation: Orientation::default(),
            display_index: 0,
            window_x: None,
            window_y: None,
        }
    }
}

impl MonitorConfig {
    /// The start channel keeps all three derived channels within 1..=512.
    pub open spec fn wf(&self) -> bool {
        1 <= self.start_channel <= 510
    }

    /// Channel carrying the clip selection byte.
    pub fn clip_channel(&self) -> (c: u16)
        ensures
            c == self.start_channel,
    {
        self.start_channel
    }

    /// Channel carrying the dimmer byte.
    pub fn dimmer_channel(&self) -> (c: u16)
        requires
            self.wf(),
        ensures
            c == self.start_channel + 1,
    {
        self.start_channel + 1
    }

    /// Channel carrying the playback-type byte.
    pub fn playtype_channel(&self) -> (c: u16)
        requires
            self.wf(),
        ensures
            c == self.start_channel + 2,
    {
        self.start_channel + 2
    }
}

/// Layout of the two output monitors.
#[derive(Clone, Copy, Debug, PartialEq, Eq, Structural)]
pub enum LayoutMode {
    HorizontalSideBySide,
    HorizontalStacked,
    VerticalSideBySide,
    VerticalStacked,
}

impl Default for LayoutMode {
    fn default() -> (r: Self)
        ensures
            r == LayoutMode::HorizontalSideBySide,
    {
        LayoutMode::HorizontalSideBySide
    }
}

/// Preview mode: drive the outputs from the network, or from the test sender.
#[derive(Clone, Copy, Debug, PartialEq, Eq, Structural)]
pub enum PreviewMode {
    Listen,
    Test,
}

impl Default for PreviewMode {
    fn default() -> (r: Self)
        ensures
            r == PreviewMode::Listen,
    {
        PreviewMode::Listen
    }
}

/// Main application configuration.
#[derive(Clone, Debug)]
pub struct AppConfig {
    pub sacn: SacnConfig,
    pub monitor1: MonitorConfig,
    pub monitor2: MonitorConfig,
    pub layout: LayoutMode,
    pub preview: PreviewMode,
    pub production_mode: bool,
    pub presentation_folder: String,
    pub convert_folder: String,
}

impl Default for AppConfig {
    fn default() -> (r: Self)
        ensures
            r.sacn.universe == 1,
            r.sacn.mode == SacnMode::Multicast,
            r.monitor1.name@ == "Monitor 1"@,
            r.monitor1.start_channel == 1,
            r.monitor1.wf(),
            r.monitor2.name@ == "Monitor 2"@,
            r.monitor2.start_channel == 10,
            r.monitor2.wf(),
            r.layout == LayoutMode::HorizontalSideBySide,
            r.preview == PreviewMode::Listen,
            !r.production_mode,
            r.presentation_folder@ == Seq::<char>::empty(),
            r.convert_folder@ == Seq::<char>::empty(),
    {
        let mut monitor1 = MonitorConfig::default();
        monitor1.name = String::from_str("Monitor 1");
        let mut monitor2 = MonitorConfig::default();
        monitor2.name = String::from_str("Monitor 2");
        monitor2.start_channel = 10;
        AppConfig {
            sacn: SacnConfig::default(),
            monitor1,
            monitor2,
            layout: LayoutMode::default(),
            preview: PreviewMode::default(),
            production_mode: false,
            presentation_folder: String::new(),
            convert_folder: String::new(),
        }
    }
}

/// Media file information, derived from the `NNN_stem.ext` naming convention.
#[derive(Clone, Debug)]
pub struct MediaFile {
    pub dmx_value: u8,
    pub filename: String,
    pub path: String,
    pub media_type: MediaType,
}

/// Media file type.
#[derive(Clone, Copy, Debug, PartialEq, Eq, Structural)]
pub enum MediaType {
    Video,
    Image,
}

/// Raw per-channel update event.
#[derive(Clone, Copy, Debug, PartialEq, Eq, Structural)]
pub struct DmxUpdate {
    pub universe: u16,
    pub channel: u16,
    pub value: u8,
}

/// Network interface information.
#[derive(Clone, Debug)]
pub struct NetworkInterface {
    pub name: String,
    pub ip_address: String,
}

} // verus!
