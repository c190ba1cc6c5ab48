//! The decisions of the RS-485 / MQTT bridge, free of I/O: the frames it
//! sends, how it reads the replies and the frames it overhears, and how a
//! write command's value becomes a BACnet value.
use vstd::prelude::*;
use crate::bacnet::{
    option_value_view, read_property_payload, spec_apdu_decode, spec_apdu_encode, spec_parse_ack,
    write_property_payload, value_bytes, Apdu, ApduModel, BacnetObjectType, BacnetProperty,
    BacnetService, BacnetValue, ObjectIdentifier, ValueModel,
};
use crate::config::BacnetConfig;
use crate::text::{spec_utf8_lossy, str_equal, utf8_lossy};
use crate::bacnet::lemma_apdu_roundtrip;
use crate::mstp::{
    lemma_decode_with_crc_encode, spec_encode_with_crc,
    default_timing, frame_data_fits, length_for, spec_decode_with_crc, FrameModel, MstpError,
    MstpFrame, MstpMaster, MstpState, FRAME_TYPE_BACNET_DATA_EXPECTING_REPLY,
    FRAME_TYPE_BACNET_DATA_NOT_EXPECTING_REPLY,
};

verus! {

/// The MAC address the bridge uses for itself on the bus; the configured
/// device address is only ever a destination.
pub const THIS_STATION: u8 = 127;

/// The master station of the bridge, for the given settings.
pub fn bridge_master(config: &BacnetConfig) -> (r: MstpMaster)
    ensures
        r == (MstpMaster {
            this_station: THIS_STATION,
            max_master: config.max_master,
            max_info_frames: config.max_info_frames,
            state: MstpState::Idle,
            timing: default_timing(),
            token_count: 0,
        }),
{
    MstpMaster::new(THIS_STATION, config.max_master, config.max_info_frames)
}

/// The frame that asks a device for a property: a data frame expecting a
/// reply, carrying the encoded ReadProperty request.
pub open spec fn read_request(
    this_station: u8,
    device_id: u8,
    object_type: BacnetObjectType,
    instance: u32,
    property: BacnetProperty,
    array_index: Option<u32>,
) -> FrameModel {
    let apdu = spec_apdu_encode(
        ApduModel {
            service: BacnetService::ReadProperty,
            payload: read_property_payload(
                ObjectIdentifier { object_type, instance },
                property,
                array_index,
            ),
        },
    );
    FrameModel {
        frame_type: FRAME_TYPE_BACNET_DATA_EXPECTING_REPLY,
        destination: device_id,
        source: this_station,
        length: length_for(apdu.len()),
        data: apdu,
    }
}

/// The frame that writes a property of a device: a data frame expecting no
/// reply, carrying the encoded WriteProperty request.
pub open spec fn write_request(
    this_station: u8,
    device_id: u8,
    object_type: BacnetObjectType,
    instance: u32,
    property: BacnetProperty,
    value: ValueModel,
    priority: Option<u8>,
) -> FrameModel {
    let apdu = spec_apdu_encode(
        ApduModel {
            service: BacnetService::WriteProperty,
            payload: write_property_payload(
                ObjectIdentifier { object_type, instance },
                property,
                value,
                priority,
            ),
        },
    );
    FrameModel {
        frame_type: FRAME_TYPE_BACNET_DATA_NOT_EXPECTING_REPLY,
        destination: device_id,
        source: this_station,
        length: length_for(apdu.len()),
        data: apdu,
    }
}

/// What the bridge puts on the bus to read a property is read back, by a
/// device decoding it with its CRC, as the same frame, whose APDU is the
/// ReadProperty request for that property.
pub proof fn lemma_read_request_round_trip(
    this_station: u8,
    device_id: u8,
    object_type: BacnetObjectType,
    instance: u32,
    property: BacnetProperty,
    array_index: Option<u32>,
)
    ensures
        ({
            let f = read_request(this_station, device_id, object_type, instance, property, array_index);
            &&& spec_decode_with_crc(spec_encode_with_crc(f)) == Ok::<FrameModel, MstpError>(f)
            &&& spec_apdu_decode(f.data) == Ok::<ApduModel, Seq<char>>(
                ApduModel {
                    service: BacnetService::ReadProperty,
                    payload: read_property_payload(
                        ObjectIdentifier { object_type, instance },
                        property,
                        array_index,
                    ),
                },
            )
        }),
{
    let a = ApduModel {
        service: BacnetService::ReadProperty,
        payload: read_property_payload(ObjectIdentifier { object_type, instance }, property, array_index),
    };
    lemma_apdu_roundtrip(a);
    let f = read_request(this_station, device_id, object_type, instance, property, array_index);
    lemma_decode_with_crc_encode(f);
}

/// What the bridge puts on the bus to write a property is read back, by a
/// device decoding it with its CRC, as the same frame, whose APDU is the
/// WriteProperty request, as long as the frame's length field can hold its
/// size.
pub proof fn lemma_write_request_round_trip(
    this_station: u8,
    device_id: u8,
    object_type: BacnetObjectType,
    instance: u32,
    property: BacnetProperty,
    value: ValueModel,
    priority: Option<u8>,
)
    requires
        11 + value_bytes(value).len() <= 65533,
    ensures
        ({
            let f = write_request(
                this_station,
                device_id,
                object_type,
                instance,
                property,
                value,
                priority,
            );
            &&& spec_decode_with_crc(spec_encode_with_crc(f)) == Ok::<FrameModel, MstpError>(f)
            &&& spec_apdu_decode(f.data) == Ok::<ApduModel, Seq<char>>(
                ApduModel {
                    service: BacnetService::WriteProperty,
                    payload: write_property_payload(
                        ObjectIdentifier { object_type, instance },
                        property,
                        value,
                        priority,
                    ),
                },
            )
        }),
{
    let a = ApduModel {
        service: BacnetService::WriteProperty,
        payload: write_property_payload(
            ObjectIdentifier { object_type, instance },
            property,
            value,
            priority,
        ),
    };
    lemma_apdu_roundtrip(a);
    let f = write_request(this_station, device_id, object_type, instance, property, value, priority);
    lemma_decode_with_crc_encode(f);
}

/// The frame that asks `device_id` for a property.
pub fn read_request_frame(
    this_station: u8,
    device_id: u8,
    object_type: BacnetObjectType,
    instance: u32,
    property: BacnetProperty,
    array_index: Option<u32>,
) -> (r: MstpFrame)
    ensures
        r@ == read_request(this_station, device_id, object_type, instance, property, array_index),
{
    let object_id = ObjectIdentifier::new(object_type, instance);
    let apdu = Apdu::read_property_request(device_id, object_id, property, array_index);
    MstpFrame::data_expect_reply(device_id, this_station, apdu.encode())
}

/// The frame that writes a property of `device_id`. The request must fit
/// in a frame whose length field is computed in 16 bits.
pub fn write_request_frame(
    this_station: u8,
    device_id: u8,
    object_type: BacnetObjectType,
    instance: u32,
    property: BacnetProperty,
    value: BacnetValue,
    priority: Option<u8>,
) -> (r: MstpFrame)
    requires
        frame_data_fits(11 + value_bytes(value@).len()),
    ensures
        r@ == write_request(
            this_station,
            device_id,
            object_type,
            instance,
            property,
            value@,
            priority,
        ),
{
    let object_id = ObjectIdentifier::new(object_type, instance);
    let apdu = Apdu::write_property_request(device_id, object_id, property, value, priority);
    MstpFrame::data_no_reply(device_id, this_station, apdu.encode())
}

/// The frame in the bytes received after a request, if they hold one with
/// a correct CRC.
pub fn reply_from_bytes(bytes: &[u8]) -> (r: Option<MstpFrame>)
    ensures
        match r {
            Some(f) => spec_decode_with_crc(bytes@) == Ok::<FrameModel, MstpError>(f@),
            None => spec_decode_with_crc(bytes@) is Err,
        },
{
    let decoded = if bytes.len() >= 10 {
        MstpFrame::decode_with_crc(bytes)
    } else {
        Err(MstpError::InvalidFrameLength)
    };
    match decoded {
        Ok(frame) => Some(frame),
        Err(_) => None,
    }
}

/// What a read yields for the reply that came (or did not come): no reply
/// is a timeout; a reply whose APDU does not decode is an invalid frame;
/// otherwise the value of the acknowledgement, if it holds one.
pub open spec fn read_outcome(reply: Option<FrameModel>) -> Result<Option<ValueModel>, MstpError> {
    match reply {
        None => Err(MstpError::Timeout),
        Some(f) => match spec_apdu_decode(f.data) {
            Ok(a) => Ok(spec_parse_ack(a)),
            Err(_) => Err(MstpError::InvalidFrameType),
        },
    }
}

/// A read's result, taken by the view of its value.
pub open spec fn read_result_view(r: Result<Option<BacnetValue>, MstpError>) -> Result<
    Option<ValueModel>,
    MstpError,
> {
    match r {
        Ok(v) => Ok(option_value_view(v)),
        Err(e) => Err(e),
    }
}

/// The result of a read, given the reply to the request.
pub fn read_response_value(reply: Option<MstpFrame>) -> (r: Result<Option<BacnetValue>, MstpError>)
    ensures
        read_result_view(r) == read_outcome(
            match reply {
                Some(f) => Some(f@),
                None => None,
            },
        ),
{
    match reply {
        Some(response_frame) => {
            match Apdu::decode(response_frame.data.as_slice()) {
                Ok(response_apdu) => Ok(response_apdu.parse_read_property_ack()),
                Err(_) => Err(MstpError::InvalidFrameType),
            }
        },
        None => Err(MstpError::Timeout),
    }
}

/// Feeds the bytes heard on the bus to the master: a frame with a correct
/// CRC is received, anything else is ignored.
pub fn master_receive_bytes(master: &mut MstpMaster, bytes: &[u8]) -> (r: Result<(), MstpError>)
    ensures
        r is Ok,
        *final(master) == match spec_decode_with_crc(bytes@) {
            Ok(f) => old(master).after_receive(f.frame_type, f.destination),
            Err(_) => *old(master),
        },
{
    if bytes.len() >= 10 {
        if let Ok(frame) = MstpFrame::decode_with_crc(bytes) {
            master.receive_frame(&frame)?;
        }
    }
    Ok(())
}

/// The value of a write command as JSON gives it: a number that fits u64,
/// one that fits i64, any other number (already narrowed to a
/// single-precision bit pattern), a number JSON cannot represent as
/// either, a boolean, a string, or anything else.
#[derive(Debug, Clone, PartialEq)]
pub enum JsonScalar {
    Unsigned(u64),
    Signed(i64),
    Float(u32),
    InvalidNumber,
    Bool(bool),
    Text(String),
    Unsupported,
}

/// The BACnet value that a write command's JSON value becomes: numbers
/// truncated to 32 bits, booleans and strings as they are.
pub open spec fn value_from_json(v: JsonScalar) -> Result<ValueModel, Seq<char>> {
    match v {
        JsonScalar::Unsigned(u) => Ok(ValueModel::Unsigned(u as u32)),
        JsonScalar::Signed(i) => Ok(ValueModel::Signed(i as i32)),
        JsonScalar::Float(bits) => Ok(ValueModel::Real(bits)),
        JsonScalar::InvalidNumber => Err("Invalid number value"@),
        JsonScalar::Bool(b) => Ok(ValueModel::Boolean(b)),
        JsonScalar::Text(s) => Ok(ValueModel::String(s@)),
        JsonScalar::Unsupported => Err("Unsupported value type"@),
    }
}

/// Converts a write command's JSON value to a BACnet value.
pub fn write_value_from_json(v: JsonScalar) -> (r: Result<BacnetValue, &'static str>)
    ensures
        match r {
            Ok(b) => value_from_json(v) == Ok::<ValueModel, Seq<char>>(b@),
            Err(e) => value_from_json(v) == Err::<ValueModel, Seq<char>>(e@),
        },
{
    match v {
        JsonScalar::Unsigned(u) => Ok(BacnetValue::Unsigned(u as u32)),
        JsonScalar::Signed(i) => Ok(BacnetValue::Signed(i as i32)),
        JsonScalar::Float(bits) => Ok(BacnetValue::Real(bits)),
        JsonScalar::InvalidNumber => Err("Invalid number value"),
        JsonScalar::Bool(b) => Ok(BacnetValue::Boolean(b)),
        JsonScalar::Text(s) => Ok(BacnetValue::String(s)),
        JsonScalar::Unsupported => Err("Unsupported value type"),
    }
}

/// What the MQTT connection reports.
#[derive(Debug, Clone, PartialEq)]
pub enum MqttEvent {
    /// The broker closed the session.
    Disconnected,
    /// The broker acknowledged a connection.
    Connected,
    /// A message arrived on a topic.
    Published { topic: String, payload: Vec<u8> },
    /// Anything else.
    Other,
}

/// What the bridge does in answer to an MQTT event.
#[derive(Debug, Clone, PartialEq)]
pub enum MqttAction {
    Nothing,
    /// Subscribe to the downlink topic.
    Subscribe,
    /// Hand a downlink message, as text, to the main loop.
    Forward(String),
}

/// The next connection state and the action for an event: a connection
/// acknowledged while not connected subscribes to the downlink topic once;
/// a disconnect clears the state; a message on the downlink topic is
/// forwarded as text (invalid UTF-8 replaced); everything else is ignored.
pub open spec fn mqtt_step(connected: bool, event: MqttEvent, downlink_topic: Seq<char>) -> (
    bool,
    Option<Option<Seq<char>>>,
) {
    match event {
        MqttEvent::Disconnected => (false, None),
        MqttEvent::Connected => if connected {
            (true, None)
        } else {
            (true, Some(None))
        },
        MqttEvent::Published { topic, payload } => if topic@ == downlink_topic {
            (connected, Some(Some(spec_utf8_lossy(payload@))))
        } else {
            (connected, None)
        },
        MqttEvent::Other => (connected, None),
    }
}

/// An action, taken as `None` for nothing, `Some(None)` for subscribing and
/// `Some(Some(text))` for forwarding a message.
pub open spec fn action_view(a: MqttAction) -> Option<Option<Seq<char>>> {
    match a {
        MqttAction::Nothing => None,
        MqttAction::Subscribe => Some(None),
        MqttAction::Forward(text) => Some(Some(text@)),
    }
}

/// One step of the MQTT session: the new connection state and the action.
pub fn mqtt_session_step(connected: bool, event: MqttEvent, downlink_topic: &str) -> (r: (
    bool,
    MqttAction,
))
    ensures
        (r.0, action_view(r.1)) == mqtt_step(connected, event, downlink_topic@),
{
    match event {
        MqttEvent::Disconnected => (false, MqttAction::Nothing),
        MqttEvent::Connected => {
            if !connected {
                (true, MqttAction::Subscribe)
            } else {
                (true, MqttAction::Nothing)
            }
        },
        MqttEvent::Published { topic, payload } => {
            if str_equal(topic.as_str(), downlink_topic) {
                (connected, MqttAction::Forward(utf8_lossy(payload.as_slice())))
            } else {
                (connected, MqttAction::Nothing)
            }
        },
        MqttEvent::Other => (connected, MqttAction::Nothing),
    }
}

/// A session subscribes once per connection: after a connection
/// acknowledgement, further acknowledgements ask for nothing until a
/// disconnect.
pub proof fn lemma_subscribe_once_per_connection(connected: bool, topic: Seq<char>)
    ensures
        mqtt_step(connected, MqttEvent::Connected, topic).0,
        mqtt_step(mqtt_step(connected, MqttEvent::Connected, topic).0, MqttEvent::Connected, topic).1
            is None,
        mqtt_step(
            mqtt_step(true, MqttEvent::Disconnected, topic).0,
            MqttEvent::Connected,
            topic,
        ).1 == Some(None::<Seq<char>>),
{
}

} // verus!
