use vstd::prelude::*;
use crate::errors::DmxError;

verus! {

/// Number of one-byte channels in a DMX universe.
pub const DMX_CHANNEL_COUNT: u16 = 512;

/// Length of a full frame: one start-code byte plus 512 channel bytes.
pub const DMX_FRAME_LEN: usize = 513;

/// Standard port for the streaming-ACN protocol.
pub const ACN_SDT_MULTICAST_PORT: u16 = 5568;

/// The byte a decoded frame carries for channel `c`.
///
/// Index 0 of the raw sequence is the start code and is never read as a
/// channel; channel `c` lives at index `c`. A channel beyond the frame's
/// length reads as zero (the protocol pads short frames with trailing zeros).
pub open spec fn spec_channel_value(values: Seq<u8>, c: int) -> u8 {
    if 1 <= c < values.len() {
        values[c]
    } else {
        0
    }
}

/// Reads channel `c` from a raw decoded frame.
pub fn channel_value(values: &Vec<u8>, c: u16) -> (r: u8)
    requires
        1 <= c <= 512,
    ensures
        r == spec_channel_value(values@, c as int),
{
    if (c as usize) < values.len() {
        values[c as usize]
    } else {
        0
    }
}

/// Reading a frame at a valid channel number always reads index `c` of the
/// raw byte sequence — the start code at index 0 is never treated as a
/// channel — and a channel past the end of a short frame reads as zero.
pub proof fn lemma_channel_position(values: Seq<u8>, c: int)
    requires
        1 <= c <= 512,
    ensures
        c < values.len() ==> spec_channel_value(values, c) == values[c],
        c >= values.len() ==> spec_channel_value(values, c) == 0,
{
}

/// Every requested (channel, value) pair lies in the valid channel range.
pub open spec fn all_channels_valid(pairs: Seq<(u16, u8)>) -> bool {
    forall|i: int| 0 <= i < pairs.len() ==> 1 <= (#[trigger] pairs[i]).0 <= 512
}

/// The value a built frame carries for channel `c`: the value of the last
/// pair addressed to `c`, or zero if no pair addresses it.
pub open spec fn spec_frame_value(pairs: Seq<(u16, u8)>, c: int) -> u8
    decreases pairs.len(),
{
    if pairs.len() == 0 {
        0
    } else if pairs.last().0 == c {
        pairs.last().1
    } else {
        spec_frame_value(pairs.drop_last(), c)
    }
}

/// A transmit-ready DMX frame: 513 bytes, start code zero at index 0,
/// channel `c` at index `c`.
pub struct DmxFrame {
    pub values: Vec<u8>,
}

impl View for DmxFrame {
    type V = Seq<u8>;

    open spec fn view(&self) -> Seq<u8> {
        self.values@
    }
}

impl DmxFrame {
    /// Full frame of the right length whose start code is zero.
    pub open spec fn wf(&self) -> bool {
        self@.len() == 513 && self@[0] == 0
    }
}

/// Builds a full transmit frame carrying the given (channel, value) pairs.
///
/// All unaddressed channels are zero; when one channel is addressed twice,
/// the later pair wins. Fails with `InvalidChannel` exactly when some pair
/// addresses a channel outside 1..=512.
pub fn build_frame(channels: &Vec<(u16, u8)>) -> (r: Result<DmxFrame, DmxError>)
    ensures
        r is Ok <==> all_channels_valid(channels@),
        r is Err ==> r == Err::<DmxFrame, DmxError>(DmxError::InvalidChannel),
        r is Ok ==> r->Ok_0.wf(),
        r is Ok ==> forall|c: int|
            1 <= c <= 512 ==> r->Ok_0@[c] == spec_frame_value(channels@, c),
{
    let mut data: Vec<u8> = Vec::new();
    let mut k: usize = 0;
    while k < DMX_FRAME_LEN
        invariant
            data@.len() == k,
            k <= 513,
            forall|j: int| 0 <= j < k ==> data@[j] == 0,
        decreases 513 - k,
    {
        data.push(0);
        k = k + 1;
    }
    proof {
        assert(forall|c: int|
            1 <= c <= 512 ==> data@[c] == spec_frame_value(channels@.take(0), c));
    }
    let mut i: usize = 0;
    while i < channels.len()
        invariant
            i <= channels@.len(),
            data@.len() == 513,
            data@[0] == 0,
            all_channels_valid(channels@.take(i as int)),
            forall|c: int|
                1 <= c <= 512 ==> data@[c] == spec_frame_value(channels@.take(i as int), c),
        decreases channels@.len() - i,
    {
        let (channel, value) = channels[i];
        if channel == 0 || channel > DMX_CHANNEL_COUNT {
            return Err(DmxError::InvalidChannel);
        }
        data.set(channel as usize, value);
        proof {
            assert(channels@.take(i + 1).drop_last() =~= channels@.take(i as int));
            assert(channels@.take(i + 1).last() == channels@[i as int]);
        }
        i = i + 1;
    }
    proof {
        assert(channels@.take(channels@.len() as int) =~= channels@);
    }
    Ok(DmxFrame { values: data })
}

/// Round trip of the wire format: reading channel `c` from a built frame
/// yields exactly the value the builder was asked to place there — the last
/// pair addressed to `c`, or zero when no pair addresses it.
pub proof fn lemma_build_read_round_trip(pairs: Seq<(u16, u8)>, frame: Seq<u8>, c: int)
    requires
        frame.len() == 513,
        forall|ch: int| 1 <= ch <= 512 ==> frame[ch] == spec_frame_value(pairs, ch),
        1 <= c <= 512,
    ensures
        spec_channel_value(frame, c) == spec_frame_value(pairs, c),
{
}

/// The highest channel number carrying a non-zero byte, or zero when every
/// channel is zero. Index 0, the start code, is never considered.
pub open spec fn spec_highest_nonzero(values: Seq<u8>) -> int
    decreases values.len(),
{
    if values.len() <= 1 {
        0
    } else if values.last() != 0 {
        values.len() - 1
    } else {
        spec_highest_nonzero(values.drop_last())
    }
}

/// Basic bounds of [`spec_highest_nonzero`]: the result is a valid index of
/// a non-zero byte, and everything above it is zero.
pub proof fn lemma_highest_nonzero_properties(values: Seq<u8>)
    ensures
        spec_highest_nonzero(values) == 0 || 1 <= spec_highest_nonzero(values) < values.len(),
        spec_highest_nonzero(values) != 0 ==> values[spec_highest_nonzero(values)] != 0,
        forall|i: int|
            spec_highest_nonzero(values) < i < values.len() && i >= 1 ==> values[i] == 0,
    decreases values.len(),
{
    if values.len() <= 1 {
    } else if values.last() != 0 {
    } else {
        lemma_highest_nonzero_properties(values.drop_last());
        assert forall|i: int|
            spec_highest_nonzero(values) < i < values.len() && i >= 1 implies values[i] == 0 by {
            if i < values.len() - 1 {
                assert(values.drop_last()[i] == values[i]);
            }
        }
    }
}

/// Finds the highest non-zero channel of a decoded frame, so that unused
/// tail channels need not be scanned further downstream.
pub fn highest_nonzero_channel(values: &Vec<u8>) -> (r: usize)
    requires
        values@.len() <= 513,
    ensures
        r == spec_highest_nonzero(values@),
{
    if values.len() == 0 {
        return 0;
    }
    let mut r: usize = 0;
    let mut i: usize = 1;
    while i < values.len()
        invariant
            1 <= i <= values@.len(),
            r == spec_highest_nonzero(values@.take(i as int)),
            values@.len() <= 513,
        decreases values@.len() - i,
    {
        if values[i] != 0 {
            r = i;
        }
        proof {
            assert(values@.take(i + 1).drop_last() =~= values@.take(i as int));
            assert(values@.take(i + 1).last() == values@[i as int]);
        }
        i = i + 1;
    }
    proof {
        assert(values@.take(values@.len() as int) =~= values@);
    }
    r
}

/// How many leading channels of a frame to hand to the channel mapper: the
/// highest non-zero channel, but never fewer than `floor` channels, so that
/// a value transitioning to zero in the low channels is still observed.
pub open spec fn spec_channels_to_process(values: Seq<u8>, floor: int) -> int {
    if spec_highest_nonzero(values) > floor {
        spec_highest_nonzero(values)
    } else {
        floor
    }
}

/// Computes the channel-processing bound for a decoded frame.
pub fn channels_to_process(values: &Vec<u8>, floor: u16) -> (n: u16)
    requires
        1 <= floor <= 512,
        values@.len() <= 513,
    ensures
        n == spec_channels_to_process(values@, floor as int),
        1 <= n <= 512,
{
    let hi = highest_nonzero_channel(values);
    proof {
        lemma_highest_nonzero_properties(values@);
    }
    if hi > floor as usize {
        hi as u16
    } else {
        floor
    }
}

} // verus!
