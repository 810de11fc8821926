use vstd::prelude::*;
use crate::errors::DmxError;
use crate::frame::{all_channels_valid, build_frame, spec_frame_value, DmxFrame};

verus! {

/// The value a frame of a single (channel, value) pair carries everywhere.
proof fn lemma_single_frame_value(c: u16, v: u8, ch: int)
    ensures
        spec_frame_value(seq![(c, v)], ch) == (if ch == c as int {
            v
        } else {
            0u8
        }),
{
    assert(spec_frame_value(Seq::<(u16, u8)>::empty(), ch) == 0);
    assert(seq![(c, v)].drop_last() =~= Seq::<(u16, u8)>::empty());
    assert(seq![(c, v)].last() == (c, v));
    assert(spec_frame_value(seq![(c, v)], ch) == (if c as int == ch {
        v
    } else {
        spec_frame_value(seq![(c, v)].drop_last(), ch)
    }));
}

/// The value a frame of three consecutive pairs carries everywhere.
proof fn lemma_three_frame_value(s: u16, clip: u8, dimmer: u8, playtype: u8, ch: int)
    requires
        1 <= s,
        s + 2 <= 512,
    ensures
        ({
            let pairs = seq![((s), clip), (((s + 1) as u16), dimmer), (((s + 2) as u16), playtype)];
            spec_frame_value(pairs, ch) == (if ch == s as int {
                clip
            } else if ch == s + 1 {
                dimmer
            } else if ch == s + 2 {
                playtype
            } else {
                0u8
            })
        }),
{
    let pairs = seq![((s), clip), (((s + 1) as u16), dimmer), (((s + 2) as u16), playtype)];
    let p2 = pairs.drop_last();
    let p1 = p2.drop_last();
    assert(spec_frame_value(Seq::<(u16, u8)>::empty(), ch) == 0);
    assert(p1.drop_last() =~= Seq::<(u16, u8)>::empty());
    assert(p1.last() == ((s), clip));
    assert(p2.last() == (((s + 1) as u16), dimmer));
    assert(pairs.last() == (((s + 2) as u16), playtype));
    assert(spec_frame_value(p1, ch) == (if s as int == ch {
        clip
    } else {
        spec_frame_value(p1.drop_last(), ch)
    }));
    assert(spec_frame_value(p2, ch) == (if s + 1 == ch {
        dimmer
    } else {
        spec_frame_value(p1, ch)
    }));
    assert(spec_frame_value(pairs, ch) == (if s + 2 == ch {
        playtype
    } else {
        spec_frame_value(p2, ch)
    }));
}

/// The decision core of the loopback test transmitter.
///
/// This type owns no socket: each `send_*` method validates its channels,
/// registers the universe in the model, and answers with the full 513-byte
/// frame the owner transmits (index 0 the zero start code, channel `c` at
/// index `c`). On release the owner must call [`SacnTestSender::close`]
/// and transmit the stream-termination frame it asks for, so downstream
/// receivers do not treat a vanished source as a frozen last-known state.
pub struct SacnTestSender {
    pub universe: u16,
    pub source_name: String,
    pub universe_registered: bool,
    pub closed: bool,
}

impl SacnTestSender {
    /// A fresh sender for a universe; the universe is not yet claimed.
    pub fn new(universe: u16, source_name: &str) -> (r: SacnTestSender)
        ensures
            r.universe == universe,
            r.source_name@ == source_name@,
            !r.universe_registered,
            !r.closed,
    {
        SacnTestSender {
            universe,
            source_name: source_name.to_owned(),
            universe_registered: false,
            closed: false,
        }
    }

    /// Builds one frame carrying the given (channel, value) pairs; all
    /// unspecified channels remain zero, and when one channel is given
    /// twice the later pair wins. Fails with `InvalidChannel` exactly when
    /// some channel lies outside 1..=512, and then nothing changes.
    pub fn send_test_data(&mut self, channels: &Vec<(u16, u8)>) -> (r: Result<DmxFrame, DmxError>)
        requires
            !old(self).closed,
        ensures
            final(self).universe == old(self).universe,
            final(self).source_name == old(self).source_name,
            !final(self).closed,
            r is Ok <==> all_channels_valid(channels@),
            r is Err ==> r->Err_0 == DmxError::InvalidChannel && *final(self) == *old(self),
            r is Ok ==> final(self).universe_registered && r->Ok_0.wf() && forall|c: int|
                1 <= c <= 512 ==> r->Ok_0@[c] == spec_frame_value(channels@, c),
    {
        let frame = match build_frame(channels) {
            Ok(f) => f,
            Err(e) => {
                return Err(e);
            },
        };
        self.universe_registered = true;
        Ok(frame)
    }

    /// Builds one frame carrying clip, dimmer and playtype values on three
    /// consecutive channels starting at `start_channel`. Fails with
    /// `InvalidChannel` exactly when the three channels do not all lie in
    /// 1..=512.
    pub fn send_three_channel_test(
        &mut self,
        start_channel: u16,
        clip_value: u8,
        dimmer_value: u8,
        playtype_value: u8,
    ) -> (r: Result<DmxFrame, DmxError>)
        requires
            !old(self).closed,
            start_channel + 2 <= u16::MAX,
        ensures
            final(self).universe == old(self).universe,
            final(self).source_name == old(self).source_name,
            !final(self).closed,
            r is Ok <==> 1 <= start_channel && start_channel + 2 <= 512,
            r is Err ==> r->Err_0 == DmxError::InvalidChannel && *final(self) == *old(self),
            r is Ok ==> final(self).universe_registered && r->Ok_0.wf() && forall|c: int|
                1 <= c <= 512 ==> r->Ok_0@[c] == (if c == start_channel as int {
                    clip_value
                } else if c == start_channel + 1 {
                    dimmer_value
                } else if c == start_channel + 2 {
                    playtype_value
                } else {
                    0u8
                }),
    {
        let mut channels: Vec<(u16, u8)> = Vec::new();
        channels.push((start_channel, clip_value));
        channels.push((start_channel + 1, dimmer_value));
        channels.push((start_channel + 2, playtype_value));
        proof {
            assert(channels@ =~= seq![
                ((start_channel), clip_value),
                (((start_channel + 1) as u16), dimmer_value),
                (((start_channel + 2) as u16), playtype_value),
            ]);
        }
        let r = self.send_test_data(&channels);
        proof {
            if 1 <= start_channel && start_channel + 2 <= 512 {
                assert(all_channels_valid(channels@));
                assert forall|c: int| 1 <= c <= 512 implies r->Ok_0@[c] == (if c
                    == start_channel as int {
                    clip_value
                } else if c == start_channel + 1 {
                    dimmer_value
                } else if c == start_channel + 2 {
                    playtype_value
                } else {
                    0u8
                }) by {
                    lemma_three_frame_value(
                        start_channel,
                        clip_value,
                        dimmer_value,
                        playtype_value,
                        c,
                    );
                }
            } else {
                if 1 <= start_channel && start_channel <= 510 {
                } else if start_channel == 0 {
                    assert(channels@[0].0 == 0);
                    assert(!all_channels_valid(channels@));
                } else {
                    assert(channels@[2].0 > 512);
                    assert(!all_channels_valid(channels@));
                }
            }
        }
        r
    }

    /// Builds one single-channel frame per value, value `i` on channel
    /// `start_channel + i`, simulating a ramp or scripted test pattern.
    /// The owner transmits them in order, pausing between sends as it sees
    /// fit. Fails with `InvalidChannel` exactly when some target channel
    /// lies outside 1..=512; frames already built are discarded.
    pub fn send_test_sequence(&mut self, start_channel: u16, values: &Vec<u8>) -> (r: Result<
        Vec<DmxFrame>,
        DmxError,
    >)
        requires
            !old(self).closed,
            start_channel + values@.len() <= u16::MAX,
        ensures
            final(self).universe == old(self).universe,
            final(self).source_name == old(self).source_name,
            !final(self).closed,
            r is Ok <==> (values@.len() == 0 || (1 <= start_channel && start_channel
                + values@.len() <= 513)),
            r is Err ==> r->Err_0 == DmxError::InvalidChannel,
            r is Ok ==> r->Ok_0@.len() == values@.len() && (values@.len() > 0 ==> final(self).universe_registered) && forall|i: int, c: int|
                0 <= i < values@.len() && 1 <= c <= 512 ==> (#[trigger] r->Ok_0@[i]@[c]) == (if c
                    == start_channel + i {
                    values@[i]
                } else {
                    0u8
                }) && r->Ok_0@[i].wf(),
    {
        let mut frames: Vec<DmxFrame> = Vec::new();
        let mut i: usize = 0;
        while i < values.len()
            invariant
                i <= values@.len(),
                !self.closed,
                self.universe == old(self).universe,
                self.source_name == old(self).source_name,
                start_channel + values@.len() <= u16::MAX,
                i > 0 ==> self.universe_registered,
                i == 0 ==> *self == *old(self),
                frames@.len() == i,
                forall|q: int, c: int|
                    0 <= q < i && 1 <= c <= 512 ==> (#[trigger] frames@[q]@[c]) == (if c
                        == start_channel + q {
                        values@[q]
                    } else {
                        0u8
                    }) && frames@[q].wf(),
                i > 0 ==> 1 <= start_channel && start_channel + i <= 513,
            decreases values@.len() - i,
        {
            let channel = start_channel + (i as u16);
            if channel == 0 || channel > 512 {
                return Err(DmxError::InvalidChannel);
            }
            let mut single: Vec<(u16, u8)> = Vec::new();
            single.push((channel, values[i]));
            proof {
                assert(single@ =~= seq![((channel), values@[i as int])]);
            }
            let frame = match self.send_test_data(&single) {
                Ok(f) => f,
                Err(_) => {
                    proof {
                        assert(all_channels_valid(single@));
                    }
                    return Err(DmxError::InvalidChannel);
                },
            };
            proof {
                assert forall|c: int| 1 <= c <= 512 implies frame@[c] == (if c == start_channel
                    + i {
                    values@[i as int]
                } else {
                    0u8
                }) by {
                    lemma_single_frame_value(channel, values@[i as int], c);
                }
            }
            frames.push(frame);
            i = i + 1;
        }
        Ok(frames)
    }

    /// Marks the stream closed and names the universe whose termination
    /// frame (start code 0) the owner must now transmit. Required before
    /// the sender is discarded.
    pub fn close(&mut self) -> (u: u16)
        ensures
            u == old(self).universe,
            final(self).closed,
            !final(self).universe_registered,
            final(self).universe == old(self).universe,
            final(self).source_name == old(self).source_name,
    {
        self.closed = true;
        self.universe_registered = false;
        self.universe
    }
}

} // verus!
