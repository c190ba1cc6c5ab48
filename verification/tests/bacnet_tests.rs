use rs485_bacnet::bacnet::{
    Apdu, ApplicationTag, BacnetDiscovery, BacnetObjectType, BacnetProperty, BacnetService, BacnetValue,
    ObjectIdentifier,
};
use rs485_bacnet::mstp::{MstpFrame, FRAME_TYPE_BACNET_DATA_NOT_EXPECTING_REPLY};

#[test]
fn test_object_type_conversion() {
    assert_eq!(BacnetObjectType::AnalogInput.as_str(), "analogInput");
    assert_eq!(BacnetObjectType::from_str("analoginput"), Some(BacnetObjectType::AnalogInput));
}

#[test]
fn test_object_identifier() {
    let obj_id = ObjectIdentifier::new(BacnetObjectType::AnalogInput, 100);
    let encoded = obj_id.encode();
    let decoded = ObjectIdentifier::decode(encoded).unwrap();
    assert_eq!(decoded.object_type, BacnetObjectType::AnalogInput);
    assert_eq!(decoded.instance, 100);
}

#[test]
fn test_property_conversion() {
    assert_eq!(BacnetProperty::PresentValue.as_str(), "presentValue");
    assert_eq!(BacnetProperty::from_str("presentvalue"), Some(BacnetProperty::PresentValue));
}

const ALL_TYPES: [BacnetObjectType; 8] = [
    BacnetObjectType::AnalogInput,
    BacnetObjectType::AnalogOutput,
    BacnetObjectType::AnalogValue,
    BacnetObjectType::BinaryInput,
    BacnetObjectType::BinaryOutput,
    BacnetObjectType::BinaryValue,
    BacnetObjectType::Device,
    BacnetObjectType::CharacterstringValue,
];

#[test]
fn object_type_numbers_round_trip() {
    for t in ALL_TYPES {
        assert_eq!(BacnetObjectType::from_u8(t.to_u8()), Some(t));
        assert_eq!(BacnetObjectType::from_str(t.as_str()), Some(t));
    }
    assert_eq!(BacnetObjectType::Device.to_u8(), 8);
    assert_eq!(BacnetObjectType::CharacterstringValue.to_u8(), 40);
    assert_eq!(BacnetObjectType::from_u8(39), None);
    assert_eq!(BacnetObjectType::from_u8(40), Some(BacnetObjectType::CharacterstringValue));
    assert_eq!(BacnetObjectType::from_u8(6), None);
}

#[test]
fn names_are_read_in_any_case() {
    assert_eq!(BacnetObjectType::from_str("ANALOGOUTPUT"), Some(BacnetObjectType::AnalogOutput));
    assert_eq!(BacnetObjectType::from_str("binaryValue"), Some(BacnetObjectType::BinaryValue));
    assert_eq!(BacnetObjectType::from_str("temperatureInput"), None);
    assert_eq!(BacnetProperty::from_str("StatusFlags"), Some(BacnetProperty::StatusFlags));
    assert_eq!(BacnetProperty::from_str("OBJECTIDENTIFIER"), Some(BacnetProperty::ObjectIdentifier));
    assert_eq!(BacnetProperty::from_str("reliability"), None);
}

#[test]
fn property_numbers() {
    assert_eq!(BacnetProperty::PresentValue.to_u16(), 85);
    assert_eq!(BacnetProperty::Description.to_u16(), 28);
    assert_eq!(BacnetProperty::ObjectType.to_u16(), 79);
    assert_eq!(BacnetProperty::ObjectName.to_u16(), 77);
    assert_eq!(BacnetProperty::StatusFlags.to_u16(), 111);
    assert_eq!(BacnetProperty::Units.to_u16(), 117);
    assert_eq!(BacnetProperty::ObjectIdentifier.to_u16(), 75);
    for p in [
        BacnetProperty::PresentValue,
        BacnetProperty::StatusFlags,
        BacnetProperty::Units,
        BacnetProperty::Description,
        BacnetProperty::ObjectName,
        BacnetProperty::ObjectType,
        BacnetProperty::ObjectIdentifier,
    ] {
        assert_eq!(BacnetProperty::from_str(p.as_str()), Some(p));
    }
}

#[test]
fn service_numbers() {
    assert_eq!(BacnetService::ReadPropertyAck.to_u8(), 100);
    assert_eq!(BacnetService::from_u8_with_tag(8, true), Some(BacnetService::ReadProperty));
    assert_eq!(BacnetService::from_u8_with_tag(8, false), None);
    assert_eq!(BacnetService::from_u8_with_tag(9, false), Some(BacnetService::ReadPropertyAck));
    assert_eq!(BacnetService::from_u8_with_tag(1, true), Some(BacnetService::IAm));
    assert_eq!(
        BacnetService::from_u8_with_tag(BacnetService::WriteProperty.to_u8(), true),
        Some(BacnetService::WriteProperty)
    );
}

#[test]
fn object_identifier_layout() {
    let id = ObjectIdentifier::new(BacnetObjectType::BinaryOutput, 7);
    assert_eq!(id.encode(), (4 << 22) | 7);
    let big = ObjectIdentifier::new(BacnetObjectType::Device, 0x40_0001);
    assert_eq!(ObjectIdentifier::decode(big.encode()), Some(ObjectIdentifier::new(BacnetObjectType::Device, 1)));
    assert_eq!(ObjectIdentifier::decode(6 << 22), None);
}

#[test]
fn read_property_request_payload() {
    let id = ObjectIdentifier::new(BacnetObjectType::AnalogInput, 3);
    let apdu = Apdu::read_property_request(2, id.clone(), BacnetProperty::PresentValue, None);
    assert_eq!(apdu.service, BacnetService::ReadProperty);
    assert_eq!(apdu.payload, vec![0, 0, 0, 3, 0, 85, 0xFF, 0xFF]);
    let indexed = Apdu::read_property_request(2, id, BacnetProperty::PresentValue, Some(5));
    assert_eq!(indexed.payload, vec![0, 0, 0, 3, 0, 85, 0, 0, 0, 5]);
    assert_eq!(indexed.encode(), vec![0x00, 8, 0, 1, 0, 0, 0, 3, 0, 85, 0, 0, 0, 5]);
}

#[test]
fn write_property_request_payload() {
    let id = ObjectIdentifier::new(BacnetObjectType::AnalogOutput, 0);
    let w = Apdu::write_property_request(2, id.clone(), BacnetProperty::PresentValue, BacnetValue::Unsigned(0x0102_0304), Some(8));
    assert_eq!(w.payload, vec![0x00, 0x40, 0, 0, 0, 85, 8, 1, 2, 3, 4]);
    let b = Apdu::write_property_request(2, id.clone(), BacnetProperty::PresentValue, BacnetValue::Boolean(true), None);
    assert_eq!(b.payload, vec![0x00, 0x40, 0, 0, 0, 85, 0xFF, 1]);
    let s = Apdu::write_property_request(2, id.clone(), BacnetProperty::Description, BacnetValue::String("Hé".to_string()), None);
    assert_eq!(s.payload, vec![0x00, 0x40, 0, 0, 0, 28, 0xFF, b'H', 0xC3, 0xA9]);
    let r = Apdu::write_property_request(2, id, BacnetProperty::PresentValue, BacnetValue::Real(42.5f32.to_bits()), None);
    assert_eq!(r.payload, vec![0x00, 0x40, 0, 0, 0, 85, 0xFF, 0x42, 0x2A, 0x00, 0x00]);
    let r2 = Apdu::write_property_request(2, id.clone(), BacnetProperty::PresentValue, BacnetValue::Real(1.0f32.to_bits()), None);
    assert_ne!(r2.payload, r.payload);
    let n = Apdu::write_property_request(2, id.clone(), BacnetProperty::PresentValue, BacnetValue::Signed(-2), None);
    assert_eq!(n.payload, vec![0x00, 0x40, 0, 0, 0, 85, 0xFF, 0xFF, 0xFF, 0xFF, 0xFE]);
    let u = Apdu::write_property_request(2, id, BacnetProperty::PresentValue, BacnetValue::Unsigned(100), None);
    assert_eq!(u.payload, vec![0x00, 0x40, 0, 0, 0, 85, 0xFF, 0, 0, 0, 100]);
    assert_eq!(r.service, BacnetService::WriteProperty);
}

#[test]
fn apdu_decode_round_trips_requests() {
    let id = ObjectIdentifier::new(BacnetObjectType::AnalogValue, 9);
    let apdu = Apdu::read_property_request(2, id, BacnetProperty::Units, None);
    let decoded = Apdu::decode(&apdu.encode()).unwrap();
    assert_eq!(decoded.service, BacnetService::ReadProperty);
    assert_eq!(decoded.payload, apdu.payload);
}

#[test]
fn apdu_decode_errors() {
    assert_eq!(Apdu::decode(&[0, 8, 0]).unwrap_err(), "APDU too short");
    assert_eq!(Apdu::decode(&[0x00, 9, 0, 1]).unwrap_err(), "Unknown confirmed service");
    assert_eq!(Apdu::decode(&[0x10, 8, 0, 1]).unwrap_err(), "Unknown unconfirmed service");
    assert_eq!(Apdu::decode(&[0x20, 1, 0, 1]).unwrap_err(), "Unknown simple ACK");
    assert_eq!(Apdu::decode(&[0x30, 12, 0, 1]).unwrap_err(), "Unknown complex ACK");
    assert_eq!(Apdu::decode(&[0x40, 8, 0, 1]).unwrap_err(), "Unknown PDU type");
    assert_eq!(Apdu::decode(&[0x1F, 1, 0, 1, 9]).unwrap().service, BacnetService::IAm);
    assert_eq!(Apdu::decode(&[0x3A, 8, 0, 1, 9]).unwrap().payload, vec![9]);
}

fn ack(value: &[u8]) -> Apdu {
    let mut payload = vec![0, 0, 0, 1, 0, 85, 0xFF, 0xFF, 0xFF, 0xFF];
    payload.extend_from_slice(value);
    Apdu { service: BacnetService::ReadPropertyAck, payload }
}

#[test]
fn ack_values_by_tag() {
    assert_eq!(ack(&[0x00, 0]).parse_read_property_ack(), Some(BacnetValue::Null));
    assert_eq!(ack(&[0x10, 1, 7]).parse_read_property_ack(), Some(BacnetValue::Boolean(true)));
    assert_eq!(ack(&[0x10, 1, 0]).parse_read_property_ack(), Some(BacnetValue::Boolean(false)));
    assert_eq!(ack(&[0x20, 2, 0x01, 0x02]).parse_read_property_ack(), Some(BacnetValue::Unsigned(0x0102)));
    assert_eq!(ack(&[0x20, 5, 0, 5, 1, 2, 3, 4, 5]).parse_read_property_ack(), Some(BacnetValue::Unsigned(0x0102_0304)));
    assert_eq!(ack(&[0x20, 5, 0, 4, 0xDE, 0xAD, 0xBE, 0xEF]).parse_read_property_ack(), Some(BacnetValue::Unsigned(0xDEAD_BEEF)));
    assert_eq!(ack(&[0x30, 2, 0xFF, 0x38]).parse_read_property_ack(), Some(BacnetValue::Signed(-200)));
    assert_eq!(ack(&[0x40, 5, 0, 4, 0x42, 0x2A, 0, 0]).parse_read_property_ack(), Some(BacnetValue::Real(42.5f32.to_bits())));
    assert_eq!(ack(&[0x40, 2, 0x42, 0x2A]).parse_read_property_ack(), None);
    let mut double = vec![0x50, 5, 0, 8];
    double.extend_from_slice(&23.5f64.to_bits().to_be_bytes());
    assert_eq!(ack(&double).parse_read_property_ack(), Some(BacnetValue::Double(23.5f64.to_bits())));
    assert_eq!(ack(&[0x70, 3, 0, 1, b'A']).parse_read_property_ack(), Some(BacnetValue::String("A".to_string())));
    assert_eq!(ack(&[0x90, 1, 3]).parse_read_property_ack(), Some(BacnetValue::Unsigned(3)));
    assert_eq!(ack(&[0xC0, 5, 0, 4, 0x00, 0x40, 0, 9]).parse_read_property_ack(), Some(BacnetValue::ObjectIdentifier(ObjectIdentifier::new(BacnetObjectType::AnalogOutput, 9))));
}

#[test]
fn ack_context_tags_read_as_null() {
    assert_eq!(ack(&[0x28, 1, 3]).parse_read_property_ack(), Some(BacnetValue::Null));
    assert_eq!(ack(&[0x18, 1, 1]).parse_read_property_ack(), Some(BacnetValue::Null));
    assert_eq!(ack(&[0x60, 1, 1]).parse_read_property_ack(), Some(BacnetValue::Null));
    assert_eq!(ack(&[0xA0, 1, 1]).parse_read_property_ack(), Some(BacnetValue::Null));
}

#[test]
fn length_fields() {
    let a = ack(&[]);
    assert_eq!(a.parse_length(&[]), None);
    assert_eq!(a.parse_length(&[3, 9]), Some((3, 1)));
    assert_eq!(a.parse_length(&[4, 0, 1, 0, 2]), Some((0x0001_0002, 5)));
    assert_eq!(a.parse_length(&[4, 0, 1, 0]), None);
    assert_eq!(a.parse_length(&[5, 1, 2]), Some((0x0102, 3)));
    assert_eq!(a.parse_length(&[5, 1]), None);
    assert_eq!(a.parse_length(&[6, 1, 2]), None);
}

#[test]
fn signed_values_are_sign_extended() {
    let a = ack(&[]);
    assert_eq!(a.parse_value_by_tag(ApplicationTag::Signed, &[0xFF, 0x38]), Some(BacnetValue::Signed(-200)));
    assert_eq!(a.parse_value_by_tag(ApplicationTag::Signed, &[0x7F]), Some(BacnetValue::Signed(127)));
    assert_eq!(a.parse_value_by_tag(ApplicationTag::Signed, &[]), Some(BacnetValue::Signed(0)));
    assert_eq!(a.parse_value_by_tag(ApplicationTag::Signed, &[0x80, 0, 0, 0, 9]), Some(BacnetValue::Signed(i32::MIN)));
    assert_eq!(a.parse_value_by_tag(ApplicationTag::Signed, &[0x01, 0, 0, 0]), Some(BacnetValue::Signed(0x0100_0000)));
}

#[test]
fn values_by_tag() {
    let a = ack(&[]);
    let bits = 23.5f64.to_bits().to_be_bytes();
    assert_eq!(a.parse_value_by_tag(ApplicationTag::Double, &bits), Some(BacnetValue::Double(23.5f64.to_bits())));
    assert_eq!(a.parse_value_by_tag(ApplicationTag::Double, &bits[..7]), None);
    assert_eq!(a.parse_value_by_tag(ApplicationTag::Boolean, &[2]), Some(BacnetValue::Boolean(true)));
    assert_eq!(a.parse_value_by_tag(ApplicationTag::Boolean, &[0]), Some(BacnetValue::Boolean(false)));
    assert_eq!(a.parse_value_by_tag(ApplicationTag::Boolean, &[]), Some(BacnetValue::Boolean(false)));
    assert_eq!(a.parse_value_by_tag(ApplicationTag::Enumerated, &[1, 2, 3, 4, 5]), Some(BacnetValue::Unsigned(0x0102_0304)));
    assert_eq!(a.parse_value_by_tag(ApplicationTag::Unsigned, &[]), Some(BacnetValue::Unsigned(0)));
    assert_eq!(a.parse_value_by_tag(ApplicationTag::Date, &[1, 2, 3, 4]), None);
    assert_eq!(a.parse_value_by_tag(ApplicationTag::OctetString, &[1]), None);
}

#[test]
fn character_strings() {
    let a = ack(&[]);
    assert_eq!(a.parse_value_by_tag(ApplicationTag::CharacterString, &[0, 2, b'h', b'i', b'!']), Some(BacnetValue::String("hi".to_string())));
    assert_eq!(a.parse_value_by_tag(ApplicationTag::CharacterString, &[0, 3, b'h', b'i']), None);
    assert_eq!(a.parse_value_by_tag(ApplicationTag::CharacterString, &[0]), None);
    assert_eq!(
        a.parse_value_by_tag(ApplicationTag::CharacterString, &[0, 2, b'A', 0xFF]),
        Some(BacnetValue::String("A\u{FFFD}".to_string()))
    );
}

#[test]
fn ack_needs_the_ack_service_and_enough_bytes() {
    let mut a = ack(&[0x20, 1, 5]);
    assert_eq!(a.parse_read_property_ack(), Some(BacnetValue::Unsigned(5)));
    a.service = BacnetService::ReadProperty;
    assert_eq!(a.parse_read_property_ack(), None);
    assert_eq!(ack(&[]).parse_read_property_ack(), None);
    assert_eq!(ack(&[0x20, 3, 1, 2]).parse_read_property_ack(), None);
    assert_eq!(ack(&[0x20, 6]).parse_read_property_ack(), None);
    assert_eq!(ack(&[0xF0]).parse_read_property_ack(), None);
    assert_eq!(ack(&[0xF0, 2, 1, 9]).parse_read_property_ack(), Some(BacnetValue::Unsigned(9)));
    assert_eq!(ack(&[0xF8, 2, 1, 9]).parse_read_property_ack(), Some(BacnetValue::Null));
    assert_eq!(ack(&[0xF0, 20, 1, 9]).parse_read_property_ack(), Some(BacnetValue::Null));
}

#[test]
fn who_is_frames() {
    let d = BacnetDiscovery::new();
    assert!(d.devices.is_empty());
    let all = d.who_is(None);
    assert_eq!(all.frame_type, FRAME_TYPE_BACNET_DATA_NOT_EXPECTING_REPLY);
    assert_eq!((all.destination, all.source), (0xFF, 1));
    assert_eq!(all.data, vec![0xFF, 0xFF, 0x00, 0x00]);
    let one = d.who_is(Some(0x0012_3456));
    assert_eq!(one.data, vec![0, 0, 0x34, 0x56, 0, 0, 0, 0x12]);
    assert_eq!(one.length, 10);
}

#[test]
fn i_am_frames_name_their_station() {
    let mut d = BacnetDiscovery::new();
    let frame = MstpFrame::data_no_reply(0xFF, 9, vec![0x10, 1, 0, 0]);
    let dev = d.process_i_am(&frame).unwrap();
    assert_eq!((dev.device_id, dev.mac_address, dev.vendor_id, dev.object_name), (0, 9, None, None));
    assert!(d.devices.is_empty());
    assert!(d.process_i_am(&MstpFrame::data_no_reply(0xFF, 0, vec![0x10, 1, 0, 0])).is_none());
    assert!(d.process_i_am(&MstpFrame::data_no_reply(0xFF, 0xFF, vec![0x10, 1, 0, 0])).is_none());
    assert!(d.process_i_am(&MstpFrame::data_no_reply(0xFF, 9, vec![0x10, 0, 0, 0])).is_none());
    assert!(d.process_i_am(&MstpFrame::data_no_reply(0xFF, 9, vec![0x10])).is_none());
}
