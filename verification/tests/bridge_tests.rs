use rs485_bacnet::bacnet::{BacnetObjectType, BacnetProperty, BacnetValue, ObjectIdentifier};
use rs485_bacnet::bridge::{
    bridge_master, master_receive_bytes, mqtt_session_step, read_request_frame, read_response_value,
    reply_from_bytes, write_request_frame, write_value_from_json, JsonScalar, MqttAction, MqttEvent,
    THIS_STATION,
};
use rs485_bacnet::config::default_config;
use rs485_bacnet::mstp::{
    MstpError, MstpFrame, MstpState, FRAME_TYPE_BACNET_DATA_EXPECTING_REPLY,
    FRAME_TYPE_BACNET_DATA_NOT_EXPECTING_REPLY,
};

#[test]
fn bridge_master_uses_station_127() {
    let config = default_config("id".to_string());
    let m = bridge_master(&config.bacnet);
    assert_eq!(m.this_station, THIS_STATION);
    assert_eq!(m.this_station, 127);
    assert_eq!(m.max_master, 127);
    assert_eq!(m.max_info_frames, 1);
    assert_eq!(m.state, MstpState::Idle);
}

#[test]
fn read_request_frames() {
    let f = read_request_frame(127, 2, BacnetObjectType::AnalogInput, 0, BacnetProperty::PresentValue, None);
    assert_eq!(f.frame_type, FRAME_TYPE_BACNET_DATA_EXPECTING_REPLY);
    assert_eq!((f.destination, f.source), (2, 127));
    assert_eq!(f.data, vec![0x00, 8, 0, 1, 0, 0, 0, 0, 0, 85, 0xFF, 0xFF]);
    assert_eq!(f.length, 14);
}

#[test]
fn write_request_frames() {
    let f = write_request_frame(127, 3, BacnetObjectType::BinaryValue, 1, BacnetProperty::PresentValue, BacnetValue::Boolean(true), Some(8));
    assert_eq!(f.frame_type, FRAME_TYPE_BACNET_DATA_NOT_EXPECTING_REPLY);
    assert_eq!((f.destination, f.source), (3, 127));
    assert_eq!(f.data, vec![0x00, 12, 0, 1, 0x01, 0x40, 0, 1, 0, 85, 8, 1]);
}

#[test]
fn replies_need_a_correct_crc() {
    let frame = MstpFrame::data_no_reply(127, 2, vec![0x30, 8, 0, 1]);
    let bytes = frame.encode_with_crc();
    assert_eq!(reply_from_bytes(&bytes), Some(frame));
    assert_eq!(reply_from_bytes(&bytes[..bytes.len() - 1]), None);
    assert_eq!(reply_from_bytes(&[1, 2, 3]), None);
}

#[test]
fn read_results() {
    assert_eq!(read_response_value(None), Err(MstpError::Timeout));
    let bad = MstpFrame::data_no_reply(127, 2, vec![0x70, 8, 0, 1]);
    assert_eq!(read_response_value(Some(bad)), Err(MstpError::InvalidFrameType));
    let mut data = vec![0x30, 8, 0, 1, 0, 0, 0, 0, 0, 85, 0xFF, 0xFF, 0xFF, 0xFF, 0x20, 1, 42];
    let good = MstpFrame::data_no_reply(127, 2, data.clone());
    assert_eq!(read_response_value(Some(good)), Ok(Some(BacnetValue::Unsigned(42))));
    data.truncate(14);
    let empty = MstpFrame::data_no_reply(127, 2, data);
    assert_eq!(read_response_value(Some(empty)), Ok(None));
    let id = BacnetValue::ObjectIdentifier(ObjectIdentifier::new(BacnetObjectType::Device, 1));
    let oid = MstpFrame::data_no_reply(127, 2, vec![0x30, 8, 0, 1, 0, 0, 0, 0, 0, 85, 0, 0, 0, 0, 0xC0, 5, 0, 4, 0x02, 0, 0, 1]);
    assert_eq!(read_response_value(Some(oid)), Ok(Some(id)));
}

#[test]
fn heard_tokens_reach_the_master() {
    let config = default_config("id".to_string());
    let mut m = bridge_master(&config.bacnet);
    let token = MstpFrame::data_no_reply(127, 1, vec![1, 2, 3]).encode_with_crc();
    assert_eq!(master_receive_bytes(&mut m, &token), Ok(()));
    assert_eq!(m.state, MstpState::Idle);
    let mut t = MstpFrame::token(127, 1);
    t.data = vec![0, 0, 0];
    t.length = 5;
    assert_eq!(master_receive_bytes(&mut m, &t.encode_with_crc()), Ok(()));
    assert_eq!(m.state, MstpState::UseToken);
    assert_eq!(master_receive_bytes(&mut m, &[0, 127, 1]), Ok(()));
    assert_eq!(m.state, MstpState::UseToken);
}

#[test]
fn json_values_become_bacnet_values() {
    assert_eq!(write_value_from_json(JsonScalar::Unsigned(100)), Ok(BacnetValue::Unsigned(100)));
    assert_eq!(write_value_from_json(JsonScalar::Unsigned(0x1_0000_0005)), Ok(BacnetValue::Unsigned(5)));
    assert_eq!(write_value_from_json(JsonScalar::Signed(-3)), Ok(BacnetValue::Signed(-3)));
    assert_eq!(write_value_from_json(JsonScalar::Float(42.5f32.to_bits())), Ok(BacnetValue::Real(42.5f32.to_bits())));
    assert_eq!(write_value_from_json(JsonScalar::Bool(true)), Ok(BacnetValue::Boolean(true)));
    assert_eq!(write_value_from_json(JsonScalar::Text("Test".to_string())), Ok(BacnetValue::String("Test".to_string())));
    assert_eq!(write_value_from_json(JsonScalar::InvalidNumber), Err("Invalid number value"));
    assert_eq!(write_value_from_json(JsonScalar::Unsupported), Err("Unsupported value type"));
}

#[test]
fn requests_read_back_from_the_bus() {
    let read = read_request_frame(127, 4, BacnetObjectType::AnalogValue, 12, BacnetProperty::Units, Some(1));
    assert_eq!(MstpFrame::decode_with_crc(&read.encode_with_crc()), Ok(read.clone()));
    let apdu = rs485_bacnet::bacnet::Apdu::decode(&read.data).unwrap();
    assert_eq!(apdu.service, rs485_bacnet::bacnet::BacnetService::ReadProperty);
    assert_eq!(apdu.payload, vec![0x00, 0x80, 0, 12, 0, 117, 0, 0, 0, 1]);
    let write = write_request_frame(127, 4, BacnetObjectType::AnalogOutput, 0, BacnetProperty::PresentValue, BacnetValue::String("Test".to_string()), None);
    assert_eq!(MstpFrame::decode_with_crc(&write.encode_with_crc()), Ok(write.clone()));
    let apdu = rs485_bacnet::bacnet::Apdu::decode(&write.data).unwrap();
    assert_eq!(apdu.service, rs485_bacnet::bacnet::BacnetService::WriteProperty);
    assert_eq!(apdu.payload, vec![0x00, 0x40, 0, 0, 0, 85, 0xFF, b'T', b'e', b's', b't']);
}

#[test]
fn mqtt_session_subscribes_once_and_forwards_downlinks() {
    let topic = "rs485/bacnet/downlink";
    assert_eq!(mqtt_session_step(false, MqttEvent::Connected, topic), (true, MqttAction::Subscribe));
    assert_eq!(mqtt_session_step(true, MqttEvent::Connected, topic), (true, MqttAction::Nothing));
    assert_eq!(mqtt_session_step(true, MqttEvent::Disconnected, topic), (false, MqttAction::Nothing));
    assert_eq!(mqtt_session_step(true, MqttEvent::Other, topic), (true, MqttAction::Nothing));
    let msg = MqttEvent::Published { topic: topic.to_string(), payload: b"{\"value\":1}".to_vec() };
    assert_eq!(mqtt_session_step(true, msg, topic), (true, MqttAction::Forward("{\"value\":1}".to_string())));
    let other = MqttEvent::Published { topic: "rs485/bacnet/uplink".to_string(), payload: b"x".to_vec() };
    assert_eq!(mqtt_session_step(false, other, topic), (false, MqttAction::Nothing));
    let bad = MqttEvent::Published { topic: topic.to_string(), payload: vec![b'o', b'k', 0xFF] };
    assert_eq!(mqtt_session_step(true, bad, topic), (true, MqttAction::Forward("ok\u{FFFD}".to_string())));
}
