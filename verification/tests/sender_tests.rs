use stage_dmx::errors::DmxError;
use stage_dmx::sender::SacnTestSender;

#[test]
fn send_builds_full_frame() {
    let mut s = SacnTestSender::new(1, "test");
    let frame = s
        .send_test_data(&vec![(1u16, 255u8), (50u16, 10u8)])
        .expect("valid channels");
    assert_eq!(frame.values.len(), 513);
    assert_eq!(frame.values[0], 0);
    assert_eq!(frame.values[1], 255);
    assert_eq!(frame.values[50], 10);
    assert!(s.universe_registered);
}

#[test]
fn send_rejects_invalid_channels() {
    let mut s = SacnTestSender::new(1, "test");
    assert!(matches!(
        s.send_test_data(&vec![(0u16, 1u8)]),
        Err(DmxError::InvalidChannel)
    ));
    assert!(matches!(
        s.send_test_data(&vec![(513u16, 1u8)]),
        Err(DmxError::InvalidChannel)
    ));
    assert!(!s.universe_registered);
}

#[test]
fn three_channel_test_hits_consecutive_channels() {
    let mut s = SacnTestSender::new(2, "test");
    let frame = s
        .send_three_channel_test(10, 5, 128, 2)
        .expect("channels 10..=12 are valid");
    assert_eq!(frame.values[10], 5);
    assert_eq!(frame.values[11], 128);
    assert_eq!(frame.values[12], 2);
    assert_eq!(frame.values[13], 0);
    assert_eq!(frame.values[9], 0);
}

#[test]
fn three_channel_test_rejects_tail_overflow() {
    let mut s = SacnTestSender::new(2, "test");
    // start channel 511 puts the playtype channel at 513, outside the frame
    assert!(matches!(
        s.send_three_channel_test(511, 1, 2, 3),
        Err(DmxError::InvalidChannel)
    ));
}

#[test]
fn sequence_builds_one_frame_per_value() {
    let mut s = SacnTestSender::new(1, "test");
    let frames = s
        .send_test_sequence(20, &vec![1, 2, 3])
        .expect("valid channels");
    assert_eq!(frames.len(), 3);
    assert_eq!(frames[0].values[20], 1);
    assert_eq!(frames[0].values[21], 0);
    assert_eq!(frames[1].values[21], 2);
    assert_eq!(frames[2].values[22], 3);
}

#[test]
fn sequence_rejects_out_of_range_tail() {
    let mut s = SacnTestSender::new(1, "test");
    assert!(matches!(
        s.send_test_sequence(511, &vec![1, 2, 3]),
        Err(DmxError::InvalidChannel)
    ));
}

#[test]
fn close_names_universe_for_termination() {
    let mut s = SacnTestSender::new(7, "test");
    s.send_test_data(&vec![(1u16, 1u8)]).expect("valid");
    assert!(s.universe_registered);
    let u = s.close();
    assert_eq!(u, 7);
    assert!(s.closed);
    assert!(!s.universe_registered);
}
