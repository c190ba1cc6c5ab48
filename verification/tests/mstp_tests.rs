use rs485_bacnet::mstp::{
    MstpError, MstpFrame, MstpMaster, MstpState, MstpTiming, FRAME_TYPE_BACNET_DATA_EXPECTING_REPLY,
    FRAME_TYPE_BACNET_DATA_NOT_EXPECTING_REPLY, FRAME_TYPE_POLL_FOR_MASTER, FRAME_TYPE_TOKEN,
};

#[test]
fn test_crc_calculation() {
    let data = vec![0x00, 0x01, 0x02, 0x00, 0x03];
    let crc = MstpFrame::calculate_crc(&data);
    assert_ne!(crc, 0);
}

#[test]
fn test_token_frame() {
    let frame = MstpFrame::token(1, 0);
    assert_eq!(frame.frame_type, FRAME_TYPE_TOKEN);
    assert_eq!(frame.destination, 1);
    assert_eq!(frame.source, 0);
    assert!(frame.is_token());
    assert!(!frame.is_bacnet_data());
}

#[test]
fn test_data_frame() {
    let data = vec![0x01, 0x02, 0x03];
    let frame = MstpFrame::data_expect_reply(5, 1, data.clone());
    assert_eq!(frame.frame_type, FRAME_TYPE_BACNET_DATA_EXPECTING_REPLY);
    assert_eq!(frame.destination, 5);
    assert_eq!(frame.source, 1);
    assert!(frame.is_bacnet_data());
    assert!(frame.expects_reply());
}

#[test]
fn test_encode_decode() {
    let sent = MstpFrame::token(10, 1);
    let encoded = sent.encode();
    let decoded = MstpFrame::decode(&encoded).unwrap();
    assert_eq!(decoded.frame_type, sent.frame_type);
    assert_eq!(decoded.destination, sent.destination);
    assert_eq!(decoded.source, sent.source);
}

#[test]
fn crc_matches_the_arc_check_values() {
    assert_eq!(MstpFrame::calculate_crc(b"123456789"), 0xBB3D);
    assert_eq!(MstpFrame::calculate_crc(&[]), 0x0000);
    assert_eq!(MstpFrame::calculate_crc(&[0x00, 0x01, 0x02, 0x00, 0x03]), 0x3DE0);
}

#[test]
fn new_frame_counts_two_header_bytes() {
    let frame = MstpFrame::new(FRAME_TYPE_POLL_FOR_MASTER, 3, 4, vec![9, 8, 7]);
    assert_eq!(frame.length, 5);
    assert_eq!(frame.data, vec![9, 8, 7]);
    assert_eq!(MstpFrame::token(1, 2).length, 2);
}

#[test]
fn encode_lays_out_header_then_data() {
    let frame = MstpFrame::data_no_reply(0x12, 0x34, vec![0xAA, 0xBB]);
    assert_eq!(frame.encode(), vec![0x06, 0x12, 0x34, 0x00, 0x04, 0xAA, 0xBB]);
}

#[test]
fn encode_with_crc_appends_little_endian_crc() {
    let frame = MstpFrame::data_expect_reply(5, 1, vec![1, 2, 3]);
    let bytes = frame.encode_with_crc();
    assert_eq!(bytes, vec![0x05, 5, 1, 0, 5, 1, 2, 3, 0x84, 0x83]);
}

#[test]
fn decode_round_trips_a_data_frame() {
    let frame = MstpFrame::data_no_reply(7, 9, vec![4, 5, 6, 7]);
    assert_eq!(MstpFrame::decode(&frame.encode()), Ok(frame.clone()));
    assert_eq!(MstpFrame::decode_with_crc(&frame.encode_with_crc()), Ok(frame));
}

#[test]
fn decode_reports_short_input() {
    assert_eq!(MstpFrame::decode(&[0, 1, 2, 0]), Err(MstpError::InvalidFrameLength));
}

#[test]
fn decode_reports_length_beyond_the_data() {
    assert_eq!(MstpFrame::decode(&[0, 1, 2, 0, 5, 1]), Err(MstpError::InvalidDataLength));
    assert_eq!(MstpFrame::decode(&[0, 1, 2, 0, 1, 1, 1, 1]), Err(MstpError::InvalidDataLength));
}

#[test]
fn decode_with_crc_rejects_short_input_and_bad_crc() {
    let frame = MstpFrame::token(2, 1);
    assert_eq!(
        MstpFrame::decode_with_crc(&frame.encode_with_crc()),
        Err(MstpError::InvalidFrameLength)
    );
    let mut bytes = MstpFrame::data_expect_reply(5, 1, vec![1, 2, 3]).encode_with_crc();
    let last = bytes.len() - 1;
    bytes[last] ^= 0x01;
    assert_eq!(MstpFrame::decode_with_crc(&bytes), Err(MstpError::InvalidCrc));
}

#[test]
fn frame_type_names() {
    assert_eq!(MstpFrame::token(1, 2).frame_type_name(), "Token");
    assert_eq!(MstpFrame::data_no_reply(1, 2, vec![]).frame_type_name(), "BACnetDataNoReply");
    assert_eq!(MstpFrame::new(0x42, 1, 2, vec![]).frame_type_name(), "Unknown");
    assert_eq!(
        MstpFrame::new(FRAME_TYPE_BACNET_DATA_NOT_EXPECTING_REPLY, 1, 2, vec![]).expects_reply(),
        false
    );
}

#[test]
fn error_descriptions() {
    assert_eq!(MstpError::InvalidCrc.description(), "CRC check failed");
    assert_eq!(MstpError::Collision.description(), "Collision detected");
    assert_eq!(MstpError::Timeout.description(), "Timeout");
}

#[test]
fn default_timing_values() {
    let t = MstpTiming::default();
    assert_eq!(t.treply_timeout, 200);
    assert_eq!(t.ttoken_hold_time, 10);
    assert_eq!(t.tframe_abort, 60);
    assert_eq!(t.tturnaround, 40);
    assert_eq!(t.tusage_timeout, 255);
}

#[test]
fn master_uses_its_token_budget() {
    let mut m = MstpMaster::new(5, 127, 2);
    assert_eq!(m.state, MstpState::Idle);
    assert!(!m.can_send());
    assert_eq!(m.receive_frame(&MstpFrame::token(5, 4)), Ok(()));
    assert_eq!(m.state, MstpState::UseToken);
    assert!(m.can_send());
    m.frame_sent();
    assert!(m.can_send());
    m.frame_sent();
    assert!(!m.can_send());
    assert_eq!(m.state, MstpState::Idle);
}

#[test]
fn master_ignores_frames_for_other_stations() {
    let mut m = MstpMaster::new(5, 127, 1);
    m.receive_frame(&MstpFrame::token(6, 4)).unwrap();
    assert_eq!(m.state, MstpState::Idle);
    m.receive_frame(&MstpFrame::data_expect_reply(5, 4, vec![])).unwrap();
    assert_eq!(m.state, MstpState::WaitForReply);
}

#[test]
fn token_passes_round_the_ring() {
    let mut m = MstpMaster::new(5, 127, 1);
    m.receive_frame(&MstpFrame::token(5, 4)).unwrap();
    let t = m.pass_token();
    assert_eq!((t.frame_type, t.destination, t.source), (FRAME_TYPE_TOKEN, 6, 5));
    assert!(!m.can_send());
    let last = MstpMaster::new(127, 127, 1);
    assert_eq!(last.send_token().destination, 1);
}
