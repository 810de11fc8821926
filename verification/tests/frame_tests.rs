use stage_dmx::errors::DmxError;
use stage_dmx::frame::{
    build_frame, channel_value, channels_to_process, highest_nonzero_channel,
};

#[test]
fn channel_reads_its_own_index() {
    // Channel c lives at index c; index 0 is the start code, never a channel.
    let mut values = vec![0u8; 513];
    values[0] = 0x77; // a strange start code must never leak into channel reads
    for c in 1..=512u16 {
        values[c as usize] = (c % 251) as u8;
    }
    for c in 1..=512u16 {
        assert_eq!(channel_value(&values, c), (c % 251) as u8);
    }
}

#[test]
fn channel_beyond_short_frame_reads_zero() {
    let values = vec![0u8, 9, 8];
    assert_eq!(channel_value(&values, 1), 9);
    assert_eq!(channel_value(&values, 2), 8);
    assert_eq!(channel_value(&values, 3), 0);
    assert_eq!(channel_value(&values, 512), 0);
}

#[test]
fn build_frame_places_values() {
    let frame = build_frame(&vec![(1u16, 10u8), (512u16, 20u8)]).expect("valid");
    assert_eq!(frame.values.len(), 513);
    assert_eq!(frame.values[0], 0);
    assert_eq!(frame.values[1], 10);
    assert_eq!(frame.values[512], 20);
    assert_eq!(frame.values[2], 0);
}

#[test]
fn build_frame_later_duplicate_wins() {
    let frame = build_frame(&vec![(7u16, 1u8), (7u16, 2u8)]).expect("valid");
    assert_eq!(frame.values[7], 2);
}

#[test]
fn build_frame_rejects_channel_zero() {
    assert!(matches!(
        build_frame(&vec![(0u16, 1u8)]),
        Err(DmxError::InvalidChannel)
    ));
}

#[test]
fn build_frame_rejects_channel_above_512() {
    assert!(matches!(
        build_frame(&vec![(513u16, 1u8)]),
        Err(DmxError::InvalidChannel)
    ));
}

#[test]
fn round_trip_build_then_read() {
    let frame = build_frame(&vec![(10u16, 5u8), (11u16, 128u8), (12u16, 2u8)]).expect("valid");
    assert_eq!(channel_value(&frame.values, 10), 5);
    assert_eq!(channel_value(&frame.values, 11), 128);
    assert_eq!(channel_value(&frame.values, 12), 2);
    assert_eq!(channel_value(&frame.values, 13), 0);
}

#[test]
fn highest_nonzero_finds_last_active_channel() {
    let mut values = vec![0u8; 513];
    values[37] = 9;
    values[120] = 1;
    assert_eq!(highest_nonzero_channel(&values), 120);
}

#[test]
fn highest_nonzero_ignores_start_code() {
    let mut values = vec![0u8; 513];
    values[0] = 0xFF;
    assert_eq!(highest_nonzero_channel(&values), 0);
}

#[test]
fn channels_to_process_applies_floor() {
    let mut values = vec![0u8; 513];
    values[10] = 1;
    // highest non-zero below the floor: the floor wins
    assert_eq!(channels_to_process(&values, 50), 50);
    values[300] = 1;
    // highest non-zero above the floor: the highest wins
    assert_eq!(channels_to_process(&values, 50), 300);
    // an all-zero frame still processes the floor, so zeros are observed
    let zeros = vec![0u8; 513];
    assert_eq!(channels_to_process(&zeros, 50), 50);
    // the floor is configurable, not protocol-mandated
    assert_eq!(channels_to_process(&zeros, 512), 512);
}
