use vstd::prelude::*;
use crate::config::{SacnConfig, SacnMode};
use crate::errors::DmxError;
use crate::frame::{channels_to_process, spec_channels_to_process, ACN_SDT_MULTICAST_PORT};
use crate::mapper::{
    process_frame, spec_monitor_cache, spec_monitor_events, ChangeEvent, ChannelCache, ChannelKey,
    EventView, MonitorEntry,
};
use crate::net::{is_ipv4_str, parse_ipv4, spec_dec_val, spec_ipv4_split};

verus! {

/// Consecutive sink-dispatch failures tolerated before the listener signals
/// itself to stop.
pub const SINK_FAILURE_LIMIT: u32 = 3;

/// The default floor on how many leading channels of a frame are processed,
/// so that values transitioning to zero are still observed. A heuristic,
/// not a protocol constant; see [`SacnListener::set_channel_floor`].
pub const DEFAULT_CHANNEL_FLOOR: u16 = 50;

/// The socket the owner must open for a started listener: which interface
/// address to bind, on which port, and whether to join the multicast group
/// for the universe.
pub struct BindPlan {
    pub octets: (u8, u8, u8, u8),
    pub port: u16,
    pub join_multicast: bool,
    pub universe: u16,
}

/// The four octet values of a valid dotted-quad address string.
pub open spec fn spec_ipv4_octets(s: Seq<char>) -> (u8, u8, u8, u8) {
    let (i, j, k) = choose|i: int, j: int, k: int| spec_ipv4_split(s, i, j, k);
    (
        (spec_dec_val(s.subrange(0, i)) as u8),
        (spec_dec_val(s.subrange(i + 1, j)) as u8),
        (spec_dec_val(s.subrange(j + 1, k)) as u8),
        (spec_dec_val(s.subrange(k + 1, s.len() as int)) as u8),
    )
}

/// Whether a configuration can be started at all: multicast needs an empty
/// or parseable interface address; unicast needs a non-empty, parseable
/// target address.
pub open spec fn spec_config_valid(c: SacnConfig) -> bool {
    match c.mode {
        SacnMode::Multicast => c.ip_address@.len() == 0 || is_ipv4_str(c.ip_address@),
        SacnMode::Unicast => c.unicast_ip@.len() > 0 && is_ipv4_str(c.unicast_ip@),
    }
}

/// The address a valid configuration binds: in multicast mode the
/// configured interface address (wildcard when empty), in unicast mode
/// always the wildcard, so packets addressed to this host arrive on any
/// interface.
pub open spec fn spec_bind_octets(c: SacnConfig) -> (u8, u8, u8, u8) {
    match c.mode {
        SacnMode::Multicast => if c.ip_address@.len() == 0 {
            (0u8, 0u8, 0u8, 0u8)
        } else {
            spec_ipv4_octets(c.ip_address@)
        },
        SacnMode::Unicast => (0u8, 0u8, 0u8, 0u8),
    }
}

/// The cache after every registered monitor, in registration order, has
/// processed a frame.
pub open spec fn spec_listener_cache(
    cache: Map<ChannelKey, u8>,
    monitors: Seq<MonitorEntry>,
    values: Seq<u8>,
    limit: int,
) -> Map<ChannelKey, u8>
    decreases monitors.len(),
{
    if monitors.len() == 0 {
        cache
    } else {
        spec_monitor_cache(
            spec_listener_cache(cache, monitors.drop_last(), values, limit),
            monitors.last().monitor_id,
            monitors.last().start_channel,
            values,
            limit,
        )
    }
}

/// The events a matching frame produces: each registered monitor's events
/// in registration order, each computed against the cache as the previous
/// monitors left it.
pub open spec fn spec_listener_events(
    cache: Map<ChannelKey, u8>,
    monitors: Seq<MonitorEntry>,
    universe: u16,
    values: Seq<u8>,
    limit: int,
) -> Seq<EventView>
    decreases monitors.len(),
{
    if monitors.len() == 0 {
        Seq::empty()
    } else {
        spec_listener_events(cache, monitors.drop_last(), universe, values, limit)
            + spec_monitor_events(
            spec_listener_cache(cache, monitors.drop_last(), values, limit),
            monitors.last().monitor_id,
            monitors.last().start_channel,
            monitors.last().folder_files.deep_view(),
            universe,
            values,
            limit,
        )
    }
}

/// The decision core of the sACN listener.
///
/// This type owns no socket and no thread: `start` validates the
/// configuration and answers with the [`BindPlan`] the owner must execute;
/// the owner's receive loop feeds every datagram through `handle_packet`
/// and reports sink outcomes through `record_sink_result`. `signal_stop`
/// only clears the running flag — the owner's poll loop observes it within
/// one receive timeout — while `stop` is the blocking variant after which
/// the owner must also join the receive thread, so the socket is released
/// before any rebind. An owner discarding a listener must call `stop`
/// first; no implicit teardown is assumed.
pub struct SacnListener {
    pub config: SacnConfig,
    pub running: bool,
    pub consecutive_sink_failures: u32,
    pub channel_floor: u16,
    pub monitors: Vec<MonitorEntry>,
    pub cache: ChannelCache,
}

impl SacnListener {
    /// The cache is consistent, the floor is a channel count, and every
    /// registered monitor keeps its three channels in range.
    pub open spec fn wf(&self) -> bool {
        self.cache.wf() && 1 <= self.channel_floor <= 512 && forall|i: int|
            0 <= i < self.monitors@.len() ==> (#[trigger] self.monitors@[i]).wf()
    }

    /// A stopped listener for a configuration, with no monitors yet.
    pub fn new(config: SacnConfig) -> (r: SacnListener)
        ensures
            r.wf(),
            r.config == config,
            !r.running,
            r.consecutive_sink_failures == 0,
            r.channel_floor == DEFAULT_CHANNEL_FLOOR,
            r.monitors@.len() == 0,
            r.cache@ == Map::<ChannelKey, u8>::empty(),
    {
        SacnListener {
            config,
            running: false,
            consecutive_sink_failures: 0,
            channel_floor: DEFAULT_CHANNEL_FLOOR,
            monitors: Vec::new(),
            cache: ChannelCache::new(),
        }
    }

    /// Registers a monitor the mapper will drive on every matching frame.
    pub fn add_monitor(&mut self, m: MonitorEntry)
        requires
            old(self).wf(),
            m.wf(),
        ensures
            final(self).wf(),
            final(self).monitors@ == old(self).monitors@.push(m),
            final(self).config == old(self).config,
            final(self).running == old(self).running,
            final(self).consecutive_sink_failures == old(self).consecutive_sink_failures,
            final(self).channel_floor == old(self).channel_floor,
            final(self).cache == old(self).cache,
    {
        self.monitors.push(m);
    }

    /// Adjusts how many leading channels are always processed per frame.
    pub fn set_channel_floor(&mut self, floor: u16)
        requires
            old(self).wf(),
            1 <= floor <= 512,
        ensures
            final(self).wf(),
            final(self).channel_floor == floor,
            final(self).config == old(self).config,
            final(self).running == old(self).running,
            final(self).consecutive_sink_failures == old(self).consecutive_sink_failures,
            final(self).monitors == old(self).monitors,
            final(self).cache == old(self).cache,
    {
        self.channel_floor = floor;
    }

    /// Whether the receive loop should keep polling.
    pub fn is_running(&self) -> (r: bool)
        ensures
            r == self.running,
    {
        self.running
    }

    /// Starts the listener: validates the configuration and answers with
    /// the socket the owner must bind.
    ///
    /// Fails with `AlreadyRunning` on a started instance and with
    /// `InvalidConfig` when unicast mode has no address or an address does
    /// not parse; in both cases nothing changes and the instance stays in
    /// a state the caller can retry from. On success the running flag is
    /// set, the debounce cache is fresh, and the failure counter is clear.
    pub fn start(&mut self) -> (r: Result<BindPlan, DmxError>)
        requires
            old(self).wf(),
        ensures
            final(self).wf(),
            final(self).config == old(self).config,
            final(self).monitors == old(self).monitors,
            final(self).channel_floor == old(self).channel_floor,
            r is Ok <==> !old(self).running && spec_config_valid(old(self).config),
            old(self).running ==> r is Err && r->Err_0 == DmxError::AlreadyRunning && *final(self)
                == *old(self),
            !old(self).running && !spec_config_valid(old(self).config) ==> r is Err && r->Err_0
                == DmxError::InvalidConfig && *final(self) == *old(self),
            r is Ok ==> final(self).running && final(self).consecutive_sink_failures == 0
                && final(self).cache@ == Map::<ChannelKey, u8>::empty(),
            r is Ok ==> r->Ok_0.universe == old(self).config.universe && r->Ok_0.port
                == ACN_SDT_MULTICAST_PORT && r->Ok_0.join_multicast == (old(
                self,
            ).config.mode is Multicast) && r->Ok_0.octets == spec_bind_octets(old(self).config),
    {
        if self.running {
            return Err(DmxError::AlreadyRunning);
        }
        let octets: (u8, u8, u8, u8);
        let join_multicast: bool;
        match self.config.mode {
            SacnMode::Multicast => {
                join_multicast = true;
                if self.config.ip_address.as_str().is_empty() {
                    octets = (0, 0, 0, 0);
                } else {
                    match parse_ipv4(self.config.ip_address.as_str()) {
                        Some(parsed) => {
                            proof {
                                let (i, j, k) = choose|i: int, j: int, k: int|
                                    spec_ipv4_split(self.config.ip_address@, i, j, k);
                                assert(spec_ipv4_split(self.config.ip_address@, i, j, k));
                            }
                            octets = parsed;
                        },
                        None => {
                            return Err(DmxError::InvalidConfig);
                        },
                    }
                }
            },
            SacnMode::Unicast => {
                join_multicast = false;
                if self.config.unicast_ip.as_str().is_empty() {
                    return Err(DmxError::InvalidConfig);
                }
                match parse_ipv4(self.config.unicast_ip.as_str()) {
                    Some(_) => {
                        octets = (0, 0, 0, 0);
                    },
                    None => {
                        return Err(DmxError::InvalidConfig);
                    },
                }
            },
        }
        self.running = true;
        self.consecutive_sink_failures = 0;
        self.cache = ChannelCache::new();
        Ok(
            BindPlan {
                octets,
                port: ACN_SDT_MULTICAST_PORT,
                join_multicast,
                universe: self.config.universe,
            },
        )
    }

    /// Reverts a start whose bind failed in the owner's hands, leaving the
    /// well-defined not-running state the caller can retry from; the owner
    /// reports the failure as `BindError`.
    pub fn bind_failed(&mut self)
        requires
            old(self).wf(),
        ensures
            final(self).wf(),
            !final(self).running,
            final(self).config == old(self).config,
            final(self).monitors == old(self).monitors,
            final(self).channel_floor == old(self).channel_floor,
            final(self).cache == old(self).cache,
            final(self).consecutive_sink_failures == old(self).consecutive_sink_failures,
    {
        self.running = false;
    }

    /// Clears the running flag without blocking; the receive loop observes
    /// it within one poll interval and exits on its own. Safe to call from
    /// contexts that must not block, including the sink itself.
    pub fn signal_stop(&mut self) -> (r: Result<(), DmxError>)
        requires
            old(self).wf(),
        ensures
            final(self).wf(),
            r is Ok <==> old(self).running,
            r is Err ==> r->Err_0 == DmxError::NotRunning && *final(self) == *old(self),
            !final(self).running,
            final(self).config == old(self).config,
            final(self).monitors == old(self).monitors,
            final(self).channel_floor == old(self).channel_floor,
            final(self).cache == old(self).cache,
            final(self).consecutive_sink_failures == old(self).consecutive_sink_failures,
    {
        if !self.running {
            return Err(DmxError::NotRunning);
        }
        self.running = false;
        Ok(())
    }

    /// The blocking stop: clears the running flag, after which the owner
    /// must join the receive thread so the socket is fully released before
    /// the port is bound again. Never call it while holding a lock the
    /// receive thread needs.
    pub fn stop(&mut self) -> (r: Result<(), DmxError>)
        requires
            old(self).wf(),
        ensures
            final(self).wf(),
            r is Ok <==> old(self).running,
            r is Err ==> r->Err_0 == DmxError::NotRunning && *final(self) == *old(self),
            !final(self).running,
            final(self).config == old(self).config,
            final(self).monitors == old(self).monitors,
            final(self).channel_floor == old(self).channel_floor,
            final(self).cache == old(self).cache,
            final(self).consecutive_sink_failures == old(self).consecutive_sink_failures,
    {
        self.signal_stop()
    }

    /// Decodes one received frame.
    ///
    /// A frame without a start code or longer than a full universe is
    /// malformed: it is reported as `DecodeError` and dropped, and must
    /// never terminate the owner's receive loop. A frame for another
    /// universe is silently discarded. A matching frame is handed to the
    /// channel mapper for every registered monitor, and the emitted events
    /// are returned in order.
    pub fn handle_packet(&mut self, packet_universe: u16, values: &Vec<u8>) -> (r: Result<
        Vec<ChangeEvent>,
        DmxError,
    >)
        requires
            old(self).wf(),
        ensures
            final(self).wf(),
            final(self).config == old(self).config,
            final(self).monitors == old(self).monitors,
            final(self).channel_floor == old(self).channel_floor,
            final(self).running == old(self).running,
            final(self).consecutive_sink_failures == old(self).consecutive_sink_failures,
            values@.len() == 0 || values@.len() > 513 ==> r is Err && r->Err_0
                == DmxError::DecodeError && *final(self) == *old(self),
            1 <= values@.len() <= 513 && packet_universe != old(self).config.universe ==> r is Ok
                && r->Ok_0@.len() == 0 && *final(self) == *old(self),
            1 <= values@.len() <= 513 && packet_universe == old(self).config.universe ==> r is Ok
                && ({
                let limit = spec_channels_to_process(values@, old(self).channel_floor as int);
                r->Ok_0.deep_view() == spec_listener_events(
                    old(self).cache@,
                    old(self).monitors@,
                    old(self).config.universe,
                    values@,
                    limit,
                ) && final(self).cache@ == spec_listener_cache(
                    old(self).cache@,
                    old(self).monitors@,
                    values@,
                    limit,
                )
            }),
    {
        if values.len() == 0 || values.len() > 513 {
            return Err(DmxError::DecodeError);
        }
        if packet_universe != self.config.universe {
            return Ok(Vec::new());
        }
        let limit = channels_to_process(values, self.channel_floor);
        let universe = self.config.universe;
        let mut events: Vec<ChangeEvent> = Vec::new();
        let mut m: usize = 0;
        proof {
            assert(self.monitors@.take(0) =~= Seq::<MonitorEntry>::empty());
            assert(events.deep_view() =~= Seq::<EventView>::empty());
        }
        while m < self.monitors.len()
            invariant
                m <= self.monitors@.len(),
                self.config == old(self).config,
                self.monitors == old(self).monitors,
                self.channel_floor == old(self).channel_floor,
                self.running == old(self).running,
                self.consecutive_sink_failures == old(self).consecutive_sink_failures,
                self.wf(),
                universe == old(self).config.universe,
                limit == spec_channels_to_process(values@, old(self).channel_floor as int),
                1 <= limit <= 512,
                self.cache@ == spec_listener_cache(
                    old(self).cache@,
                    self.monitors@.take(m as int),
                    values@,
                    limit as int,
                ),
                events.deep_view() == spec_listener_events(
                    old(self).cache@,
                    self.monitors@.take(m as int),
                    universe,
                    values@,
                    limit as int,
                ),
            decreases self.monitors@.len() - m,
        {
            proof {
                assert(self.monitors@.take(m + 1).drop_last() =~= self.monitors@.take(m as int));
                assert(self.monitors@.take(m + 1).last() == self.monitors@[m as int]);
            }
            let ghost pre_events = events.deep_view();
            let monitor = &self.monitors[m];
            let mut monitor_events = process_frame(
                &mut self.cache,
                monitor,
                universe,
                values,
                limit,
            );
            let ghost mev = monitor_events.deep_view();
            events.append(&mut monitor_events);
            proof {
                assert(events.deep_view() =~= pre_events + mev);
            }
            m = m + 1;
        }
        proof {
            assert(self.monitors@.take(self.monitors@.len() as int) =~= self.monitors@);
        }
        Ok(events)
    }

    /// Books the outcome of handing one event to the sink. Delivery resets
    /// the failure count; a failure raises it, and on the third consecutive
    /// failure the listener signals itself to stop, ending the error flood
    /// of a consumer that has gone away.
    pub fn record_sink_result(&mut self, delivered: bool)
        requires
            old(self).wf(),
        ensures
            final(self).wf(),
            final(self).config == old(self).config,
            final(self).monitors == old(self).monitors,
            final(self).channel_floor == old(self).channel_floor,
            final(self).cache == old(self).cache,
            delivered ==> final(self).consecutive_sink_failures == 0 && final(self).running == old(
                self,
            ).running,
            !delivered ==> final(self).consecutive_sink_failures == (if old(
                self,
            ).consecutive_sink_failures < SINK_FAILURE_LIMIT {
                old(self).consecutive_sink_failures + 1
            } else {
                old(self).consecutive_sink_failures as int
            }),
            !delivered ==> final(self).running == (old(self).running
                && final(self).consecutive_sink_failures < SINK_FAILURE_LIMIT),
    {
        if delivered {
            self.consecutive_sink_failures = 0;
            return ;
        }
        if self.consecutive_sink_failures < SINK_FAILURE_LIMIT {
            self.consecutive_sink_failures = self.consecutive_sink_failures + 1;
        }
        if self.consecutive_sink_failures >= SINK_FAILURE_LIMIT {
            self.running = false;
        }
    }
}

/// What a successful `start` guarantees of the control state: it fires
/// only on a non-running listener with a valid configuration, and leaves
/// the listener running with its configuration unchanged.
pub open spec fn spec_start_transition(pre: SacnListener, post: SacnListener) -> bool {
    !pre.running && spec_config_valid(pre.config) && post.running && post.config == pre.config
}

/// What `stop` and `signal_stop` guarantee of the control state: the
/// listener is no longer running and its configuration is unchanged.
pub open spec fn spec_stop_transition(pre: SacnListener, post: SacnListener) -> bool {
    !post.running && post.config == pre.config
}

/// Restart safety: after a successful `start` and a `stop`, an immediate
/// second `start` on the same listener finds exactly the state it needs —
/// not running, configuration still valid — so it succeeds again; it can
/// return neither `AlreadyRunning` nor `InvalidConfig`. (Releasing the
/// port itself is the owner's side of the contract: `stop` is complete
/// only once the receive thread is joined.)
pub proof fn lemma_restart_safety(l0: SacnListener, l1: SacnListener, l2: SacnListener)
    requires
        spec_start_transition(l0, l1),
        spec_stop_transition(l1, l2),
    ensures
        !l2.running && spec_config_valid(l2.config),
{
}

} // verus!
