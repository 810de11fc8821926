use vstd::prelude::*;
use crate::config::DmxUpdate;
use crate::frame::{channel_value, spec_channel_value};
use crate::media::{resolve_media, spec_resolve};

verus! {

/// Composite debounce key: a monitor and a channel, never conflated into
/// one integer.
#[derive(Clone, Copy, Debug, PartialEq, Eq, Structural)]
pub struct ChannelKey {
    pub monitor_id: u32,
    pub channel: u16,
}

/// One cached entry: the last value emitted for a (monitor, channel) pair.
#[derive(Clone, Copy, Debug, PartialEq, Eq, Structural)]
pub struct CacheEntry {
    pub monitor_id: u32,
    pub channel: u16,
    pub value: u8,
}

/// The debounce key an entry carries.
pub open spec fn entry_key(e: CacheEntry) -> ChannelKey {
    ChannelKey { monitor_id: e.monitor_id, channel: e.channel }
}

/// The map a sequence of cache entries denotes; later entries win.
pub open spec fn entries_map(entries: Seq<CacheEntry>) -> Map<ChannelKey, u8>
    decreases entries.len(),
{
    if entries.len() == 0 {
        Map::empty()
    } else {
        entries_map(entries.drop_last()).insert(entry_key(entries.last()), entries.last().value)
    }
}

/// Last-seen byte value per (monitor, channel) key; pure data, no I/O.
///
/// Created empty at listener start, mutated only by the channel mapper on
/// each decoded frame, and discarded when the listener stops, so debounce
/// state is fresh on every (re)start.
pub struct ChannelCache {
    pub entries: Vec<CacheEntry>,
}

impl View for ChannelCache {
    type V = Map<ChannelKey, u8>;

    open spec fn view(&self) -> Map<ChannelKey, u8> {
        entries_map(self.entries@)
    }
}

/// A key occurs in at most one entry.
pub open spec fn entries_unique(entries: Seq<CacheEntry>) -> bool {
    forall|i: int, j: int|
        0 <= i < j < entries.len() ==> entry_key(#[trigger] entries[i]) != entry_key(
            #[trigger] entries[j],
        )
}

/// The denoted map contains a key exactly when some entry carries it.
proof fn lemma_entries_map_domain(entries: Seq<CacheEntry>, k: ChannelKey)
    ensures
        entries_map(entries).contains_key(k) <==> exists|i: int|
            0 <= i < entries.len() && entry_key(#[trigger] entries[i]) == k,
    decreases entries.len(),
{
    if entries.len() > 0 {
        lemma_entries_map_domain(entries.drop_last(), k);
        if entry_key(entries.last()) == k {
            assert(entry_key(entries[entries.len() - 1]) == k);
        } else {
            if entries_map(entries).contains_key(k) {
                let w = choose|i: int|
                    0 <= i < entries.drop_last().len() && entry_key(
                        #[trigger] entries.drop_last()[i],
                    ) == k;
                assert(entry_key(entries[w]) == k);
            }
            if exists|i: int| 0 <= i < entries.len() && entry_key(#[trigger] entries[i]) == k {
                let w = choose|i: int|
                    0 <= i < entries.len() && entry_key(#[trigger] entries[i]) == k;
                assert(w < entries.len() - 1);
                assert(entry_key(entries.drop_last()[w]) == k);
            }
        }
    }
}

/// Under unique keys, every entry's value is the denoted map's value.
proof fn lemma_entries_map_index(entries: Seq<CacheEntry>, i: int)
    requires
        entries_unique(entries),
        0 <= i < entries.len(),
    ensures
        entries_map(entries).contains_key(entry_key(entries[i])),
        entries_map(entries)[entry_key(entries[i])] == entries[i].value,
    decreases entries.len(),
{
    if i == entries.len() - 1 {
    } else {
        assert(entries_unique(entries.drop_last()));
        assert(entries.drop_last()[i] == entries[i]);
        lemma_entries_map_index(entries.drop_last(), i);
    }
}

impl ChannelCache {
    /// Every key occurs in at most one entry.
    pub open spec fn wf(&self) -> bool {
        entries_unique(self.entries@)
    }

    /// A fresh, empty cache.
    pub fn new() -> (r: ChannelCache)
        ensures
            r.wf(),
            r@ == Map::<ChannelKey, u8>::empty(),
    {
        ChannelCache { entries: Vec::new() }
    }

    /// The last value emitted for a (monitor, channel) pair, if any.
    pub fn lookup(&self, monitor_id: u32, channel: u16) -> (r: Option<u8>)
        requires
            self.wf(),
        ensures
            r is Some <==> self@.contains_key(ChannelKey { monitor_id, channel }),
            r is Some ==> r->0 == self@[ChannelKey { monitor_id, channel }],
    {
        let ghost k = ChannelKey { monitor_id, channel };
        let mut i: usize = 0;
        while i < self.entries.len()
            invariant
                i <= self.entries@.len(),
                self.wf(),
                k == (ChannelKey { monitor_id, channel }),
                forall|j: int| 0 <= j < i ==> entry_key(#[trigger] self.entries@[j]) != k,
            decreases self.entries@.len() - i,
        {
            let e = self.entries[i];
            if e.monitor_id == monitor_id && e.channel == channel {
                proof {
                    lemma_entries_map_index(self.entries@, i as int);
                }
                return Some(e.value);
            }
            proof {
                assert(entry_key(self.entries@[i as int]) != k);
            }
            i = i + 1;
        }
        proof {
            lemma_entries_map_domain(self.entries@, k);
        }
        None
    }

    /// Records the value last emitted for a (monitor, channel) pair.
    pub fn update(&mut self, monitor_id: u32, channel: u16, value: u8)
        requires
            old(self).wf(),
        ensures
            final(self).wf(),
            final(self)@ == old(self)@.insert(ChannelKey { monitor_id, channel }, value),
    {
        let ghost k = ChannelKey { monitor_id, channel };
        let ghost pre = self.entries@;
        let mut i: usize = 0;
        while i < self.entries.len()
            invariant
                i <= self.entries@.len(),
                self.entries@ == pre,
                old(self).entries@ == pre,
                entries_unique(pre),
                k == (ChannelKey { monitor_id, channel }),
                forall|j: int| 0 <= j < i ==> entry_key(#[trigger] pre[j]) != k,
            decreases self.entries@.len() - i,
        {
            let e = self.entries[i];
            if e.monitor_id == monitor_id && e.channel == channel {
                proof {
                    assert(entry_key(pre[i as int]) == k);
                }
                self.entries.set(i, CacheEntry { monitor_id, channel, value });
                proof {
                    lemma_entries_map_set(pre, self.entries@, i as int, k, value);
                }
                return ;
            }
            proof {
                assert(entry_key(pre[i as int]) != k);
            }
            i = i + 1;
        }
        self.entries.push(CacheEntry { monitor_id, channel, value });
        proof {
            assert(self.entries@.drop_last() =~= pre);
            lemma_entries_map_domain(pre, k);
        }
    }
}

/// Replacing the value of the (unique) entry carrying key `k` turns the
/// denoted map into the map with `k` re-bound to the new value.
proof fn lemma_entries_map_set(
    pre: Seq<CacheEntry>,
    post: Seq<CacheEntry>,
    i: int,
    k: ChannelKey,
    value: u8,
)
    requires
        entries_unique(pre),
        0 <= i < pre.len(),
        post.len() == pre.len(),
        entry_key(pre[i]) == k,
        post[i] == (CacheEntry { monitor_id: k.monitor_id, channel: k.channel, value }),
        forall|j: int| 0 <= j < pre.len() && j != i ==> post[j] == pre[j],
    ensures
        entries_unique(post),
        entries_map(post) == entries_map(pre).insert(k, value),
    decreases pre.len(),
{
    assert forall|a: int, b: int| 0 <= a < b < post.len() implies entry_key(#[trigger] post[a])
        != entry_key(#[trigger] post[b]) by {
        assert(entry_key(post[a]) == entry_key(pre[a]));
        assert(entry_key(post[b]) == entry_key(pre[b]));
    }
    if i == pre.len() - 1 {
        assert(post.drop_last() =~= pre.drop_last());
        assert(entries_map(post) =~= entries_map(pre).insert(k, value));
    } else {
        assert(entries_unique(pre.drop_last()));
        assert(pre.drop_last()[i] == pre[i]);
        assert(post.drop_last()[i] == post[i]);
        lemma_entries_map_set(pre.drop_last(), post.drop_last(), i, k, value);
        assert(post.last() == pre.last());
        assert(entry_key(pre.last()) != k);
        assert(entries_map(post) =~= entries_map(pre).insert(k, value));
    }
}

/// A typed change event, produced by the channel mapper and consumed once
/// by the external presentation layer.
#[derive(Clone, Debug)]
pub enum ChangeEvent {
    /// A channel's byte value changed.
    DmxUpdate(DmxUpdate),
    /// The clip channel changed to a non-zero value; carries the filename
    /// the media resolver chose for it.
    ClipChange { monitor_id: u32, filename: String, dmx_value: u8 },
    /// The dimmer channel changed; carries the raw byte value. The
    /// presentation layer divides by 255 to obtain the level in [0, 1].
    DimmerChange { monitor_id: u32, value: u8 },
}

/// The mathematical shape of a change event: as [`ChangeEvent`], with the
/// filename as a character sequence.
pub enum EventView {
    Dmx { universe: u16, channel: u16, value: u8 },
    Clip { monitor_id: u32, filename: Seq<char>, dmx_value: u8 },
    Dimmer { monitor_id: u32, value: u8 },
}

impl View for ChangeEvent {
    type V = EventView;

    open spec fn view(&self) -> EventView {
        match self {
            ChangeEvent::DmxUpdate(u) => EventView::Dmx {
                universe: u.universe,
                channel: u.channel,
                value: u.value,
            },
            ChangeEvent::ClipChange { monitor_id, filename, dmx_value } => EventView::Clip {
                monitor_id: *monitor_id,
                filename: filename@,
                dmx_value: *dmx_value,
            },
            ChangeEvent::DimmerChange { monitor_id, value } => EventView::Dimmer {
                monitor_id: *monitor_id,
                value: *value,
            },
        }
    }
}

impl DeepView for ChangeEvent {
    type V = EventView;

    open spec fn deep_view(&self) -> EventView {
        self.view()
    }
}

/// The events one channel of one monitor contributes for a newly decoded
/// byte: nothing when the byte equals the cached value (debounce);
/// otherwise a DmxUpdate, followed by a ClipChange when the channel is the
/// clip channel and the byte is non-zero, or a DimmerChange when the
/// channel is the dimmer channel.
pub open spec fn spec_channel_events(
    cache: Map<ChannelKey, u8>,
    monitor_id: u32,
    universe: u16,
    channel: u16,
    newv: u8,
    is_clip: bool,
    is_dimmer: bool,
    files: Seq<Seq<char>>,
) -> Seq<EventView> {
    let key = ChannelKey { monitor_id, channel };
    if cache.contains_key(key) && cache[key] == newv {
        Seq::empty()
    } else {
        let base = seq![EventView::Dmx { universe, channel, value: newv }];
        if is_clip && newv != 0 {
            base.push(
                EventView::Clip {
                    monitor_id,
                    filename: spec_resolve(files, newv as int),
                    dmx_value: newv,
                },
            )
        } else if is_dimmer {
            base.push(EventView::Dimmer { monitor_id, value: newv })
        } else {
            base
        }
    }
}

/// The cache after one channel of one monitor processes a decoded byte:
/// unchanged when the byte equals the cached value, else re-bound to it.
pub open spec fn spec_channel_cache(
    cache: Map<ChannelKey, u8>,
    monitor_id: u32,
    channel: u16,
    newv: u8,
) -> Map<ChannelKey, u8> {
    let key = ChannelKey { monitor_id, channel };
    if cache.contains_key(key) && cache[key] == newv {
        cache
    } else {
        cache.insert(key, newv)
    }
}

/// Performs the compare-and-update step for one channel and appends the
/// events it contributes. The cache is touched only here, before any event
/// is handed out, so a reentrant sink never races the cache.
fn channel_step(
    cache: &mut ChannelCache,
    monitor_id: u32,
    universe: u16,
    channel: u16,
    newv: u8,
    is_clip: bool,
    is_dimmer: bool,
    files: &Vec<String>,
    events: &mut Vec<ChangeEvent>,
)
    requires
        old(cache).wf(),
    ensures
        final(cache).wf(),
        final(cache)@ == spec_channel_cache(old(cache)@, monitor_id, channel, newv),
        final(events).deep_view() == old(events).deep_view() + spec_channel_events(
            old(cache)@,
            monitor_id,
            universe,
            channel,
            newv,
            is_clip,
            is_dimmer,
            files.deep_view(),
        ),
{
    let ghost predv = events.deep_view();
    let prior = cache.lookup(monitor_id, channel);
    let unchanged = match prior {
        Some(p) => p == newv,
        None => false,
    };
    if unchanged {
        proof {
            assert(final(events).deep_view() =~= predv + Seq::<EventView>::empty());
        }
        return ;
    }
    cache.update(monitor_id, channel, newv);
    events.push(ChangeEvent::DmxUpdate(DmxUpdate { universe, channel, value: newv }));
    if is_clip && newv != 0 {
        let filename = resolve_media(files, newv);
        events.push(ChangeEvent::ClipChange { monitor_id, filename, dmx_value: newv });
        proof {
            assert(final(events).deep_view() =~= predv + spec_channel_events(
                old(cache)@,
                monitor_id,
                universe,
                channel,
                newv,
                is_clip,
                is_dimmer,
                files.deep_view(),
            ));
        }
    } else if is_dimmer {
        events.push(ChangeEvent::DimmerChange { monitor_id, value: newv });
        proof {
            assert(final(events).deep_view() =~= predv + spec_channel_events(
                old(cache)@,
                monitor_id,
                universe,
                channel,
                newv,
                is_clip,
                is_dimmer,
                files.deep_view(),
            ));
        }
    } else {
        proof {
            assert(final(events).deep_view() =~= predv + spec_channel_events(
                old(cache)@,
                monitor_id,
                universe,
                channel,
                newv,
                is_clip,
                is_dimmer,
                files.deep_view(),
            ));
        }
    }
}

/// One registered monitor as the mapper sees it: its identity, the first
/// of its three derived channels, and the folder listing the resolver
/// probes for clip filenames.
#[derive(Clone, Debug)]
pub struct MonitorEntry {
    pub monitor_id: u32,
    pub start_channel: u16,
    pub folder_files: Vec<String>,
}

impl MonitorEntry {
    /// The start channel keeps clip, dimmer and playtype within 1..=512.
    pub open spec fn wf(&self) -> bool {
        1 <= self.start_channel <= 510
    }
}

/// The events one channel contributes, gated by the processing bound: a
/// channel above the bound is not read at all this frame.
pub open spec fn spec_gated_events(
    cache: Map<ChannelKey, u8>,
    monitor_id: u32,
    universe: u16,
    channel: u16,
    values: Seq<u8>,
    limit: int,
    is_clip: bool,
    is_dimmer: bool,
    files: Seq<Seq<char>>,
) -> Seq<EventView> {
    if channel <= limit {
        spec_channel_events(
            cache,
            monitor_id,
            universe,
            channel,
            spec_channel_value(values, channel as int),
            is_clip,
            is_dimmer,
            files,
        )
    } else {
        Seq::empty()
    }
}

/// The cache after one gated channel step.
pub open spec fn spec_gated_cache(
    cache: Map<ChannelKey, u8>,
    monitor_id: u32,
    channel: u16,
    values: Seq<u8>,
    limit: int,
) -> Map<ChannelKey, u8> {
    if channel <= limit {
        spec_channel_cache(cache, monitor_id, channel, spec_channel_value(values, channel as int))
    } else {
        cache
    }
}

/// The cache after one monitor processes a frame: its clip, dimmer and
/// playtype channels are stepped in that order.
pub open spec fn spec_monitor_cache(
    cache: Map<ChannelKey, u8>,
    monitor_id: u32,
    start: u16,
    values: Seq<u8>,
    limit: int,
) -> Map<ChannelKey, u8> {
    let m1 = spec_gated_cache(cache, monitor_id, start, values, limit);
    let m2 = spec_gated_cache(m1, monitor_id, (start + 1) as u16, values, limit);
    spec_gated_cache(m2, monitor_id, (start + 2) as u16, values, limit)
}

/// The events one monitor emits for a frame: per channel, a DmxUpdate for
/// each changed byte, a ClipChange for a changed non-zero clip byte, a
/// DimmerChange for a changed dimmer byte; channels are visited in the
/// order clip, dimmer, playtype, and within one channel the DmxUpdate
/// precedes the derived event.
pub open spec fn spec_monitor_events(
    cache: Map<ChannelKey, u8>,
    monitor_id: u32,
    start: u16,
    files: Seq<Seq<char>>,
    universe: u16,
    values: Seq<u8>,
    limit: int,
) -> Seq<EventView> {
    let m1 = spec_gated_cache(cache, monitor_id, start, values, limit);
    let m2 = spec_gated_cache(m1, monitor_id, (start + 1) as u16, values, limit);
    spec_gated_events(cache, monitor_id, universe, start, values, limit, true, false, files)
        + spec_gated_events(
        m1,
        monitor_id,
        universe,
        (start + 1) as u16,
        values,
        limit,
        false,
        true,
        files,
    ) + spec_gated_events(
        m2,
        monitor_id,
        universe,
        (start + 2) as u16,
        values,
        limit,
        false,
        false,
        files,
    )
}

/// Processes one decoded frame for one monitor: reads the clip, dimmer and
/// playtype bytes (channels up to `limit` only), debounces each against the
/// cache, updates the cache first, and returns the emitted events in order.
pub fn process_frame(
    cache: &mut ChannelCache,
    monitor: &MonitorEntry,
    universe: u16,
    values: &Vec<u8>,
    limit: u16,
) -> (events: Vec<ChangeEvent>)
    requires
        old(cache).wf(),
        monitor.wf(),
        limit <= 512,
    ensures
        final(cache).wf(),
        final(cache)@ == spec_monitor_cache(
            old(cache)@,
            monitor.monitor_id,
            monitor.start_channel,
            values@,
            limit as int,
        ),
        events.deep_view() == spec_monitor_events(
            old(cache)@,
            monitor.monitor_id,
            monitor.start_channel,
            monitor.folder_files.deep_view(),
            universe,
            values@,
            limit as int,
        ),
{
    let mut events: Vec<ChangeEvent> = Vec::new();
    proof {
        assert(events.deep_view() =~= Seq::<EventView>::empty());
    }
    let c1 = monitor.start_channel;
    let c2 = monitor.start_channel + 1;
    let c3 = monitor.start_channel + 2;
    if c1 <= limit {
        let v1 = channel_value(values, c1);
        channel_step(
            cache,
            monitor.monitor_id,
            universe,
            c1,
            v1,
            true,
            false,
            &monitor.folder_files,
            &mut events,
        );
    }
    if c2 <= limit {
        let v2 = channel_value(values, c2);
        channel_step(
            cache,
            monitor.monitor_id,
            universe,
            c2,
            v2,
            false,
            true,
            &monitor.folder_files,
            &mut events,
        );
    }
    if c3 <= limit {
        let v3 = channel_value(values, c3);
        channel_step(
            cache,
            monitor.monitor_id,
            universe,
            c3,
            v3,
            false,
            false,
            &monitor.folder_files,
            &mut events,
        );
    }
    proof {
        assert(events.deep_view() =~= spec_monitor_events(
            old(cache)@,
            monitor.monitor_id,
            monitor.start_channel,
            monitor.folder_files.deep_view(),
            universe,
            values@,
            limit as int,
        ));
    }
    events
}

/// Debounce: once a byte value has been processed for a (monitor, channel),
/// processing the same value again emits no event at all.
pub proof fn lemma_debounce_repeat(
    cache: Map<ChannelKey, u8>,
    monitor_id: u32,
    universe: u16,
    channel: u16,
    v: u8,
    is_clip: bool,
    is_dimmer: bool,
    files: Seq<Seq<char>>,
)
    ensures
        spec_channel_events(
            spec_channel_cache(cache, monitor_id, channel, v),
            monitor_id,
            universe,
            channel,
            v,
            is_clip,
            is_dimmer,
            files,
        ) == Seq::<EventView>::empty(),
{
}

/// A byte that differs from the cached value (or has no cached value yet)
/// always emits: first its DmxUpdate, then at most one derived event.
pub proof fn lemma_changed_value_emits(
    cache: Map<ChannelKey, u8>,
    monitor_id: u32,
    universe: u16,
    channel: u16,
    v: u8,
    is_clip: bool,
    is_dimmer: bool,
    files: Seq<Seq<char>>,
)
    requires
        !(cache.contains_key(ChannelKey { monitor_id, channel }) && cache[ChannelKey {
            monitor_id,
            channel,
        }] == v),
    ensures
        ({
            let events = spec_channel_events(
                cache,
                monitor_id,
                universe,
                channel,
                v,
                is_clip,
                is_dimmer,
                files,
            );
            1 <= events.len() <= 2 && events[0] == (EventView::Dmx { universe, channel, value: v })
        }),
{
}

/// Debounce keeps no history: after value `a` then a different value `b`,
/// `a` arriving again emits again — only the single most recent value is
/// cached.
pub proof fn lemma_debounce_no_history(
    cache: Map<ChannelKey, u8>,
    monitor_id: u32,
    universe: u16,
    channel: u16,
    a: u8,
    b: u8,
    is_clip: bool,
    is_dimmer: bool,
    files: Seq<Seq<char>>,
)
    requires
        a != b,
        !(cache.contains_key(ChannelKey { monitor_id, channel }) && cache[ChannelKey {
            monitor_id,
            channel,
        }] == a),
    ensures
        ({
            let m1 = spec_channel_cache(cache, monitor_id, channel, a);
            let m2 = spec_channel_cache(m1, monitor_id, channel, b);
            spec_channel_events(cache, monitor_id, universe, channel, a, is_clip, is_dimmer, files).len()
                >= 1 && spec_channel_events(
                m1,
                monitor_id,
                universe,
                channel,
                b,
                is_clip,
                is_dimmer,
                files,
            ).len() >= 1 && spec_channel_events(
                m2,
                monitor_id,
                universe,
                channel,
                a,
                is_clip,
                is_dimmer,
                files,
            ).len() >= 1
        }),
{
}

/// Frame-level debounce: a monitor that has just processed a frame emits
/// nothing when the very same frame arrives again, and the cache does not
/// change either — so an unchanged wire state is reported exactly once.
pub proof fn lemma_frame_debounce(
    cache: Map<ChannelKey, u8>,
    monitor_id: u32,
    start: u16,
    files: Seq<Seq<char>>,
    universe: u16,
    values: Seq<u8>,
    limit: int,
)
    requires
        1 <= start <= 510,
    ensures
        ({
            let once = spec_monitor_cache(cache, monitor_id, start, values, limit);
            spec_monitor_events(once, monitor_id, start, files, universe, values, limit)
                == Seq::<EventView>::empty() && spec_monitor_cache(
                once,
                monitor_id,
                start,
                values,
                limit,
            ) == once
        }),
{
    let key1 = ChannelKey { monitor_id, channel: start };
    let key2 = ChannelKey { monitor_id, channel: (start + 1) as u16 };
    let key3 = ChannelKey { monitor_id, channel: (start + 2) as u16 };
    assert(key1 != key2 && key2 != key3 && key1 != key3);
    let v1 = spec_channel_value(values, start as int);
    let v2 = spec_channel_value(values, start + 1);
    let v3 = spec_channel_value(values, start + 2);
    let m1 = spec_gated_cache(cache, monitor_id, start, values, limit);
    let m2 = spec_gated_cache(m1, monitor_id, (start + 1) as u16, values, limit);
    let once = spec_gated_cache(m2, monitor_id, (start + 2) as u16, values, limit);
    assert(start as int <= limit ==> once.contains_key(key1) && once[key1] == v1);
    assert(start + 1 <= limit ==> once.contains_key(key2) && once[key2] == v2);
    assert(start + 2 <= limit ==> once.contains_key(key3) && once[key3] == v3);
    let n1 = spec_gated_cache(once, monitor_id, start, values, limit);
    let n2 = spec_gated_cache(n1, monitor_id, (start + 1) as u16, values, limit);
    let n3 = spec_gated_cache(n2, monitor_id, (start + 2) as u16, values, limit);
    assert(n1 == once);
    assert(n2 == once);
    assert(n3 == once);
    assert(spec_monitor_events(once, monitor_id, start, files, universe, values, limit)
        =~= Seq::<EventView>::empty());
}

} // verus!
