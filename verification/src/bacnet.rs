//! BACnet application layer (ANSI/ASHRAE 135-2012): object types, property
//! identifiers, object identifiers, values, and the APDU codec.
use vstd::prelude::*;
use vstd::slice::{slice_subrange, slice_to_vec};
use vstd::utf8::{encode_utf8, is_ascii_chars};
use crate::bytes::{
    be16, be32, be_prefix, be_value, lemma_be16_value, lemma_be32_value, lemma_be_value_bound, lemma_pow256_mono, pow256, push_all, push_be16,
    push_be32, u16_from_be, u32_from_be,
};
use crate::mstp::{
    length_for, FrameModel, MstpFrame, FRAME_TYPE_BACNET_DATA_NOT_EXPECTING_REPLY,
};
use crate::text::{
    ascii_lower, spec_to_lowercase, spec_utf8_lossy, str_equal, to_lowercase, utf8_lossy,
};

verus! {

/// BACnet object types.
#[derive(Debug, Clone, Copy, PartialEq, Eq, Hash, Structural)]
pub enum BacnetObjectType {
    AnalogInput,
    AnalogOutput,
    AnalogValue,
    BinaryInput,
    BinaryOutput,
    BinaryValue,
    Device,
    CharacterstringValue,
}

/// The number that BACnet assigns to an object type.
pub open spec fn object_type_code(t: BacnetObjectType) -> u8 {
    match t {
        BacnetObjectType::AnalogInput => 0,
        BacnetObjectType::AnalogOutput => 1,
        BacnetObjectType::AnalogValue => 2,
        BacnetObjectType::BinaryInput => 3,
        BacnetObjectType::BinaryOutput => 4,
        BacnetObjectType::BinaryValue => 5,
        BacnetObjectType::Device => 8,
        BacnetObjectType::CharacterstringValue => 40,
    }
}

/// The object type with number `v`, if there is one.
pub open spec fn object_type_from_code(v: u8) -> Option<BacnetObjectType> {
    if v == 0 {
        Some(BacnetObjectType::AnalogInput)
    } else if v == 1 {
        Some(BacnetObjectType::AnalogOutput)
    } else if v == 2 {
        Some(BacnetObjectType::AnalogValue)
    } else if v == 3 {
        Some(BacnetObjectType::BinaryInput)
    } else if v == 4 {
        Some(BacnetObjectType::BinaryOutput)
    } else if v == 5 {
        Some(BacnetObjectType::BinaryValue)
    } else if v == 8 {
        Some(BacnetObjectType::Device)
    } else if v == 40 {
        Some(BacnetObjectType::CharacterstringValue)
    } else {
        None
    }
}

/// The display name of an object type.
pub open spec fn object_type_name(t: BacnetObjectType) -> Seq<char> {
    match t {
        BacnetObjectType::AnalogInput => "analogInput"@,
        BacnetObjectType::AnalogOutput => "analogOutput"@,
        BacnetObjectType::AnalogValue => "analogValue"@,
        BacnetObjectType::BinaryInput => "binaryInput"@,
        BacnetObjectType::BinaryOutput => "binaryOutput"@,
        BacnetObjectType::BinaryValue => "binaryValue"@,
        BacnetObjectType::Device => "device"@,
        BacnetObjectType::CharacterstringValue => "characterstringValue"@,
    }
}

/// The object type whose lowercase name is `s`, if there is one.
pub open spec fn object_type_from_name(s: Seq<char>) -> Option<BacnetObjectType> {
    if s == "analoginput"@ {
        Some(BacnetObjectType::AnalogInput)
    } else if s == "analogoutput"@ {
        Some(BacnetObjectType::AnalogOutput)
    } else if s == "analogvalue"@ {
        Some(BacnetObjectType::AnalogValue)
    } else if s == "binaryinput"@ {
        Some(BacnetObjectType::BinaryInput)
    } else if s == "binaryoutput"@ {
        Some(BacnetObjectType::BinaryOutput)
    } else if s == "binaryvalue"@ {
        Some(BacnetObjectType::BinaryValue)
    } else if s == "device"@ {
        Some(BacnetObjectType::Device)
    } else if s == "characterstringvalue"@ {
        Some(BacnetObjectType::CharacterstringValue)
    } else {
        None
    }
}

impl BacnetObjectType {
    /// The object type with number `value`, if there is one.
    pub fn from_u8(value: u8) -> (r: Option<Self>)
        ensures
            r == object_type_from_code(value),
    {
        match value {
            0 => Some(Self::AnalogInput),
            1 => Some(Self::AnalogOutput),
            2 => Some(Self::AnalogValue),
            3 => Some(Self::BinaryInput),
            4 => Some(Self::BinaryOutput),
            5 => Some(Self::BinaryValue),
            8 => Some(Self::Device),
            40 => Some(Self::CharacterstringValue),
            _ => None,
        }
    }

    /// The number of this object type.
    pub fn to_u8(&self) -> (r: u8)
        ensures
            r == object_type_code(*self),
    {
        match self {
            Self::AnalogInput => 0,
            Self::AnalogOutput => 1,
            Self::AnalogValue => 2,
            Self::BinaryInput => 3,
            Self::BinaryOutput => 4,
            Self::BinaryValue => 5,
            Self::Device => 8,
            Self::CharacterstringValue => 40,
        }
    }

    /// The object type named `s`, in any letter case.
    pub fn from_str(s: &str) -> (r: Option<Self>)
        ensures
            r == object_type_from_name(spec_to_lowercase(s@)),
            is_ascii_chars(s@) ==> r == object_type_from_name(ascii_lower(s@)),
    {
        let lower = to_lowercase(s);
        let l = lower.as_str();
        if str_equal(l, "analoginput") {
            Some(Self::AnalogInput)
        } else if str_equal(l, "analogoutput") {
            Some(Self::AnalogOutput)
        } else if str_equal(l, "analogvalue") {
            Some(Self::AnalogValue)
        } else if str_equal(l, "binaryinput") {
            Some(Self::BinaryInput)
        } else if str_equal(l, "binaryoutput") {
            Some(Self::BinaryOutput)
        } else if str_equal(l, "binaryvalue") {
            Some(Self::BinaryValue)
        } else if str_equal(l, "device") {
            Some(Self::Device)
        } else if str_equal(l, "characterstringvalue") {
            Some(Self::CharacterstringValue)
        } else {
            None
        }
    }

    /// The display name of this object type.
    pub fn as_str(&self) -> (r: &'static str)
        ensures
            r@ == object_type_name(*self),
    {
        match self {
            Self::AnalogInput => "analogInput",
            Self::AnalogOutput => "analogOutput",
            Self::AnalogValue => "analogValue",
            Self::BinaryInput => "binaryInput",
            Self::BinaryOutput => "binaryOutput",
            Self::BinaryValue => "binaryValue",
            Self::Device => "device",
            Self::CharacterstringValue => "characterstringValue",
        }
    }
}

/// Object type numbers identify object types: the number of a type maps
/// back to it, and a number that maps to a type is that type's number.
pub proof fn lemma_object_type_code_roundtrip(t: BacnetObjectType, v: u8)
    ensures
        object_type_from_code(object_type_code(t)) == Some(t),
        object_type_from_code(v) == Some(t) ==> object_type_code(t) == v,
{
}

/// The display name of every object type is ASCII, and reading it back in
/// any letter case gives the type.
pub proof fn lemma_object_type_name_roundtrip(t: BacnetObjectType)
    ensures
        is_ascii_chars(object_type_name(t)),
        object_type_from_name(ascii_lower(object_type_name(t))) == Some(t),
{
    reveal_strlit("analogInput");
    reveal_strlit("analogOutput");
    reveal_strlit("analogValue");
    reveal_strlit("binaryInput");
    reveal_strlit("binaryOutput");
    reveal_strlit("binaryValue");
    reveal_strlit("device");
    reveal_strlit("characterstringValue");
    reveal_strlit("analoginput");
    reveal_strlit("analogoutput");
    reveal_strlit("analogvalue");
    reveal_strlit("binaryinput");
    reveal_strlit("binaryoutput");
    reveal_strlit("binaryvalue");
    reveal_strlit("characterstringvalue");
    match t {
        BacnetObjectType::AnalogInput => {
            assert(ascii_lower("analogInput"@) =~= "analoginput"@);
        },
        BacnetObjectType::AnalogOutput => {
            assert(ascii_lower("analogOutput"@) =~= "analogoutput"@);
        },
        BacnetObjectType::AnalogValue => {
            assert(ascii_lower("analogValue"@) =~= "analogvalue"@);
            assert("analogvalue"@[6] != "analoginput"@[6]);
        },
        BacnetObjectType::BinaryInput => {
            assert(ascii_lower("binaryInput"@) =~= "binaryinput"@);
            assert("binaryinput"@[0] != "analoginput"@[0]);
            assert("binaryinput"@[0] != "analogvalue"@[0]);
        },
        BacnetObjectType::BinaryOutput => {
            assert(ascii_lower("binaryOutput"@) =~= "binaryoutput"@);
            assert("binaryoutput"@[0] != "analogoutput"@[0]);
        },
        BacnetObjectType::BinaryValue => {
            assert(ascii_lower("binaryValue"@) =~= "binaryvalue"@);
            assert("binaryvalue"@[0] != "analoginput"@[0]);
            assert("binaryvalue"@[0] != "analogvalue"@[0]);
            assert("binaryvalue"@[6] != "binaryinput"@[6]);
        },
        BacnetObjectType::Device => {
            assert(ascii_lower("device"@) =~= "device"@);
        },
        BacnetObjectType::CharacterstringValue => {
            assert(ascii_lower("characterstringValue"@) =~= "characterstringvalue"@);
        },
    }
}

/// BACnet property identifiers.
#[derive(Debug, Clone, Copy, PartialEq, Eq, Structural)]
pub enum BacnetProperty {
    PresentValue,
    StatusFlags,
    Units,
    Description,
    ObjectName,
    ObjectType,
    ObjectIdentifier,
}

/// The number that BACnet assigns to a property.
pub open spec fn property_code(p: BacnetProperty) -> u16 {
    match p {
        BacnetProperty::PresentValue => 85,
        BacnetProperty::StatusFlags => 111,
        BacnetProperty::Units => 117,
        BacnetProperty::Description => 28,
        BacnetProperty::ObjectName => 77,
        BacnetProperty::ObjectType => 79,
        BacnetProperty::ObjectIdentifier => 75,
    }
}

/// The display name of a property.
pub open spec fn property_name(p: BacnetProperty) -> Seq<char> {
    match p {
        BacnetProperty::PresentValue => "presentValue"@,
        BacnetProperty::StatusFlags => "statusFlags"@,
        BacnetProperty::Units => "units"@,
        BacnetProperty::Description => "description"@,
        BacnetProperty::ObjectName => "objectName"@,
        BacnetProperty::ObjectType => "objectType"@,
        BacnetProperty::ObjectIdentifier => "objectIdentifier"@,
    }
}

/// The property whose lowercase name is `s`, if there is one.
pub open spec fn property_from_name(s: Seq<char>) -> Option<BacnetProperty> {
    if s == "presentvalue"@ {
        Some(BacnetProperty::PresentValue)
    } else if s == "statusflags"@ {
        Some(BacnetProperty::StatusFlags)
    } else if s == "units"@ {
        Some(BacnetProperty::Units)
    } else if s == "description"@ {
        Some(BacnetProperty::Description)
    } else if s == "objectname"@ {
        Some(BacnetProperty::ObjectName)
    } else if s == "objecttype"@ {
        Some(BacnetProperty::ObjectType)
    } else if s == "objectidentifier"@ {
        Some(BacnetProperty::ObjectIdentifier)
    } else {
        None
    }
}

impl BacnetProperty {
    /// The property named `s`, in any letter case.
    pub fn from_str(s: &str) -> (r: Option<Self>)
        ensures
            r == property_from_name(spec_to_lowercase(s@)),
            is_ascii_chars(s@) ==> r == property_from_name(ascii_lower(s@)),
    {
        let lower = to_lowercase(s);
        let l = lower.as_str();
        if str_equal(l, "presentvalue") {
            Some(Self::PresentValue)
        } else if str_equal(l, "statusflags") {
            Some(Self::StatusFlags)
        } else if str_equal(l, "units") {
            Some(Self::Units)
        } else if str_equal(l, "description") {
            Some(Self::Description)
        } else if str_equal(l, "objectname") {
            Some(Self::ObjectName)
        } else if str_equal(l, "objecttype") {
            Some(Self::ObjectType)
        } else if str_equal(l, "objectidentifier") {
            Some(Self::ObjectIdentifier)
        } else {
            None
        }
    }

    /// The display name of this property.
    pub fn as_str(&self) -> (r: &'static str)
        ensures
            r@ == property_name(*self),
    {
        match self {
            Self::PresentValue => "presentValue",
            Self::StatusFlags => "statusFlags",
            Self::Units => "units",
            Self::Description => "description",
            Self::ObjectName => "objectName",
            Self::ObjectType => "objectType",
            Self::ObjectIdentifier => "objectIdentifier",
        }
    }

    /// The number of this property.
    pub fn to_u16(&self) -> (r: u16)
        ensures
            r == property_code(*self),
    {
        match self {
            Self::PresentValue => 85,
            Self::StatusFlags => 111,
            Self::Units => 117,
            Self::Description => 28,
            Self::ObjectName => 77,
            Self::ObjectType => 79,
            Self::ObjectIdentifier => 75,
        }
    }
}

/// The display name of every property is ASCII, and reading it back in any
/// letter case gives the property.
pub proof fn lemma_property_name_roundtrip(p: BacnetProperty)
    ensures
        is_ascii_chars(property_name(p)),
        property_from_name(ascii_lower(property_name(p))) == Some(p),
{
    reveal_strlit("presentValue");
    reveal_strlit("statusFlags");
    reveal_strlit("units");
    reveal_strlit("description");
    reveal_strlit("objectName");
    reveal_strlit("objectType");
    reveal_strlit("objectIdentifier");
    reveal_strlit("presentvalue");
    reveal_strlit("statusflags");
    reveal_strlit("objectname");
    reveal_strlit("objecttype");
    reveal_strlit("objectidentifier");
    match p {
        BacnetProperty::PresentValue => {
            assert(ascii_lower("presentValue"@) =~= "presentvalue"@);
        },
        BacnetProperty::StatusFlags => {
            assert(ascii_lower("statusFlags"@) =~= "statusflags"@);
        },
        BacnetProperty::Units => {
            assert(ascii_lower("units"@) =~= "units"@);
        },
        BacnetProperty::Description => {
            assert(ascii_lower("description"@) =~= "description"@);
            assert("description"@[0] != "statusflags"@[0]);
        },
        BacnetProperty::ObjectName => {
            assert(ascii_lower("objectName"@) =~= "objectname"@);
        },
        BacnetProperty::ObjectType => {
            assert(ascii_lower("objectType"@) =~= "objecttype"@);
            assert("objecttype"@[6] != "objectname"@[6]);
        },
        BacnetProperty::ObjectIdentifier => {
            assert(ascii_lower("objectIdentifier"@) =~= "objectidentifier"@);
        },
    }
}

/// BACnet application tags.
#[derive(Debug, Clone, Copy, PartialEq, Eq, Structural)]
pub enum ApplicationTag {
    Null,
    Boolean,
    Unsigned,
    Signed,
    Real,
    Double,
    OctetString,
    CharacterString,
    BitString,
    Enumerated,
    Date,
    Time,
    ObjectIdentifier,
}

/// BACnet service choices.
#[derive(Debug, Clone, Copy, PartialEq, Eq, Structural)]
pub enum BacnetService {
    WhoIs,
    IAm,
    ReadProperty,
    ReadPropertyConditional,
    /// The complex acknowledgement of ReadProperty (not a service choice of
    /// its own).
    ReadPropertyAck,
    WriteProperty,
    WritePropertyMultiple,
}

/// The number of a service.
pub open spec fn service_code(s: BacnetService) -> u8 {
    match s {
        BacnetService::WhoIs => 0,
        BacnetService::IAm => 1,
        BacnetService::ReadProperty => 8,
        BacnetService::ReadPropertyConditional => 9,
        BacnetService::ReadPropertyAck => 100,
        BacnetService::WriteProperty => 12,
        BacnetService::WritePropertyMultiple => 16,
    }
}

/// The service with number `v`, given whether the request is confirmed.
pub open spec fn service_from_code(v: u8, is_confirmed: bool) -> Option<BacnetService> {
    if v == 0 {
        Some(BacnetService::WhoIs)
    } else if v == 1 {
        Some(BacnetService::IAm)
    } else if v == 8 && is_confirmed {
        Some(BacnetService::ReadProperty)
    } else if v == 9 && !is_confirmed {
        Some(BacnetService::ReadPropertyAck)
    } else if v == 12 && is_confirmed {
        Some(BacnetService::WriteProperty)
    } else {
        None
    }
}

impl BacnetService {
    /// The number of this service.
    pub fn to_u8(&self) -> (r: u8)
        ensures
            r == service_code(*self),
    {
        match self {
            Self::WhoIs => 0,
            Self::IAm => 1,
            Self::ReadProperty => 8,
            Self::ReadPropertyConditional => 9,
            Self::ReadPropertyAck => 100,
            Self::WriteProperty => 12,
            Self::WritePropertyMultiple => 16,
        }
    }

    /// The service with number `value`, given whether the request is
    /// confirmed.
    pub fn from_u8_with_tag(value: u8, is_confirmed: bool) -> (r: Option<Self>)
        ensures
            r == service_from_code(value, is_confirmed),
    {
        match (value, is_confirmed) {
            (0, _) => Some(Self::WhoIs),
            (1, _) => Some(Self::IAm),
            (8, true) => Some(Self::ReadProperty),
            (9, false) => Some(Self::ReadPropertyAck),
            (12, true) => Some(Self::WriteProperty),
            _ => None,
        }
    }
}

/// The services that carry their own number on the wire map back from it:
/// WhoIs and IAm in either kind of request, ReadProperty and WriteProperty
/// as confirmed requests.
pub proof fn lemma_service_code_roundtrip(s: BacnetService, is_confirmed: bool)
    requires
        s == BacnetService::WhoIs || s == BacnetService::IAm || (is_confirmed && (s
            == BacnetService::ReadProperty || s == BacnetService::WriteProperty)),
    ensures
        service_from_code(service_code(s), is_confirmed) == Some(s),
{
}

/// A BACnet object identifier: an object type and a 22-bit instance number.
#[derive(Debug, Clone, Copy, PartialEq, Eq, Structural)]
pub struct ObjectIdentifier {
    pub object_type: BacnetObjectType,
    pub instance: u32,
}

/// The 32-bit encoding of an object identifier: the type number in the top
/// ten bits, the low 22 bits of the instance below.
pub open spec fn spec_oid_encode(o: ObjectIdentifier) -> u32 {
    (object_type_code(o.object_type) * 0x40_0000 + o.instance % 0x40_0000) as u32
}

/// The object identifier that a 32-bit encoding denotes, if its type
/// number (taken modulo 256) is a known type.
pub open spec fn spec_oid_decode(v: u32) -> Option<ObjectIdentifier> {
    match object_type_from_code(((v / 0x40_0000) % 256) as u8) {
        Some(t) => Some(ObjectIdentifier { object_type: t, instance: v % 0x40_0000 }),
        None => None,
    }
}

impl ObjectIdentifier {
    /// An object identifier of the given type and instance.
    pub fn new(object_type: BacnetObjectType, instance: u32) -> (r: Self)
        ensures
            r == (ObjectIdentifier { object_type, instance }),
    {
        Self { object_type, instance }
    }

    /// The 32-bit encoding: `(type << 22) | (instance & 0x3FFFFF)`.
    pub fn encode(&self) -> (r: u32)
        ensures
            r == spec_oid_encode(*self),
    {
        let t = self.object_type.to_u8() as u32;
        let i = self.instance;
        let r = t << 22 | (i & 0x3FFFFF);
        assert(r == t * 0x40_0000 + i % 0x40_0000) by (bit_vector)
            requires
                t < 256,
                r == t << 22 | (i & 0x3FFFFF),
        ;
        r
    }

    /// Decodes a 32-bit encoding; `None` when the type number is unknown.
    pub fn decode(value: u32) -> (r: Option<Self>)
        ensures
            r == spec_oid_decode(value),
    {
        let object_type = (value >> 22) as u8;
        let instance = value & 0x3FFFFF;
        assert(object_type == ((value / 0x40_0000) % 256) as u8 && instance == value % 0x40_0000)
            by (bit_vector)
            requires
                object_type == (value >> 22) as u8,
                instance == value & 0x3FFFFF,
        ;
        match BacnetObjectType::from_u8(object_type) {
            Some(ot) => Some(Self { object_type: ot, instance }),
            None => None,
        }
    }
}

/// Decoding the encoding of an object identifier gives its type and the
/// low 22 bits of its instance; an instance below 2^22 comes back whole.
pub proof fn lemma_oid_roundtrip(o: ObjectIdentifier)
    ensures
        spec_oid_decode(spec_oid_encode(o)) == Some(
            ObjectIdentifier { object_type: o.object_type, instance: o.instance % 0x40_0000 },
        ),
        o.instance < 0x40_0000 ==> spec_oid_decode(spec_oid_encode(o)) == Some(o),
{
    let c = object_type_code(o.object_type) as int;
    let r = (o.instance % 0x40_0000) as int;
    assert((c * 0x40_0000 + r) / 0x40_0000 == c && (c * 0x40_0000 + r) % 0x40_0000 == r)
        by (nonlinear_arith)
        requires
            0 <= r < 0x40_0000,
            0 <= c,
    ;
}

/// A BACnet value. `Real` and `Double` hold the IEEE-754 bit patterns of a
/// single- and a double-precision number.
#[derive(Debug, Clone, PartialEq)]
pub enum BacnetValue {
    Null,
    Boolean(bool),
    Unsigned(u32),
    Signed(i32),
    Real(u32),
    Double(u64),
    String(String),
    ObjectIdentifier(ObjectIdentifier),
}

/// The mathematical content of a [`BacnetValue`].
pub enum ValueModel {
    Null,
    Boolean(bool),
    Unsigned(u32),
    Signed(i32),
    Real(u32),
    Double(u64),
    String(Seq<char>),
    ObjectIdentifier(ObjectIdentifier),
}

impl View for BacnetValue {
    type V = ValueModel;

    open spec fn view(&self) -> ValueModel {
        match self {
            BacnetValue::Null => ValueModel::Null,
            BacnetValue::Boolean(b) => ValueModel::Boolean(*b),
            BacnetValue::Unsigned(v) => ValueModel::Unsigned(*v),
            BacnetValue::Signed(v) => ValueModel::Signed(*v),
            BacnetValue::Real(v) => ValueModel::Real(*v),
            BacnetValue::Double(v) => ValueModel::Double(*v),
            BacnetValue::String(s) => ValueModel::String(s@),
            BacnetValue::ObjectIdentifier(o) => ValueModel::ObjectIdentifier(*o),
        }
    }
}

/// An optional value, taken by its view.
pub open spec fn option_value_view(r: Option<BacnetValue>) -> Option<ValueModel> {
    match r {
        Some(v) => Some(v@),
        None => None,
    }
}

/// A ReadProperty request.
#[derive(Debug, Clone)]
pub struct ReadPropertyRequest {
    pub destination: u8,
    pub object_identifier: ObjectIdentifier,
    pub property_identifier: BacnetProperty,
    pub array_index: Option<u32>,
}

/// A WriteProperty request.
#[derive(Debug, Clone)]
pub struct WritePropertyRequest {
    pub destination: u8,
    pub object_identifier: ObjectIdentifier,
    pub property_identifier: BacnetProperty,
    pub value: BacnetValue,
    pub priority: Option<u8>,
}

/// A BACnet APDU (application protocol data unit): a service and the bytes
/// that follow the four-byte APDU header.
#[derive(Debug, Clone)]
pub struct Apdu {
    pub service: BacnetService,
    pub payload: Vec<u8>,
}

/// The mathematical content of an [`Apdu`].
pub struct ApduModel {
    pub service: BacnetService,
    pub payload: Seq<u8>,
}

impl View for Apdu {
    type V = ApduModel;

    open spec fn view(&self) -> ApduModel {
        ApduModel { service: self.service, payload: self.payload@ }
    }
}

/// The payload of a ReadProperty request: the encoded object identifier,
/// the property number, then the array index, or 0xFFFF when there is none.
pub open spec fn read_property_payload(
    o: ObjectIdentifier,
    p: BacnetProperty,
    array_index: Option<u32>,
) -> Seq<u8> {
    be32(spec_oid_encode(o)) + be16(property_code(p)) + match array_index {
        Some(i) => be32(i),
        None => be16(0xFFFF),
    }
}

/// The bytes that a WriteProperty request carries for a value: unsigned
/// numbers as four big-endian bytes, signed numbers as four big-endian
/// two's-complement bytes, reals as the four big-endian bytes of their bit
/// pattern, booleans as one byte, strings as their UTF-8 bytes; other
/// values carry nothing.
pub open spec fn value_bytes(v: ValueModel) -> Seq<u8> {
    match v {
        ValueModel::Unsigned(x) => be32(x),
        ValueModel::Signed(x) => be32(x as u32),
        ValueModel::Real(bits) => be32(bits),
        ValueModel::Boolean(b) => seq![if b { 1u8 } else { 0u8 }],
        ValueModel::String(s) => encode_utf8(s),
        _ => Seq::empty(),
    }
}

/// The payload of a WriteProperty request: the encoded object identifier,
/// the property number, the priority (0xFF for none), then the value.
pub open spec fn write_property_payload(
    o: ObjectIdentifier,
    p: BacnetProperty,
    v: ValueModel,
    priority: Option<u8>,
) -> Seq<u8> {
    be32(spec_oid_encode(o)) + be16(property_code(p)) + seq![
        match priority {
            Some(x) => x,
            None => 0xFFu8,
        },
    ] + value_bytes(v)
}

/// The bytes of an APDU: a confirmed-request PDU type, the service number,
/// invoke id 1 in two bytes, then the payload.
pub open spec fn spec_apdu_encode(a: ApduModel) -> Seq<u8> {
    seq![0x00u8, service_code(a.service), 0x00u8, 0x01u8] + a.payload
}

/// The service that a PDU type (the high nibble of the first byte) and a
/// service choice denote, or the message for an unknown pair.
pub open spec fn service_of_pdu(pdu: u8, choice: u8) -> Result<BacnetService, Seq<char>> {
    if pdu == 0 {
        if choice == 8 {
            Ok(BacnetService::ReadProperty)
        } else if choice == 12 {
            Ok(BacnetService::WriteProperty)
        } else {
            Err("Unknown confirmed service"@)
        }
    } else if pdu == 1 {
        if choice == 0 {
            Ok(BacnetService::WhoIs)
        } else if choice == 1 {
            Ok(BacnetService::IAm)
        } else {
            Err("Unknown unconfirmed service"@)
        }
    } else if pdu == 2 {
        if choice == 8 {
            Ok(BacnetService::ReadProperty)
        } else if choice == 12 {
            Ok(BacnetService::WriteProperty)
        } else {
            Err("Unknown simple ACK"@)
        }
    } else if pdu == 3 {
        if choice == 8 {
            Ok(BacnetService::ReadPropertyAck)
        } else {
            Err("Unknown complex ACK"@)
        }
    } else {
        Err("Unknown PDU type"@)
    }
}

/// What decoding an APDU yields: the service from the first two bytes, the
/// payload after the four-byte header, or the message of the error.
pub open spec fn spec_apdu_decode(b: Seq<u8>) -> Result<ApduModel, Seq<char>> {
    if b.len() < 4 {
        Err("APDU too short"@)
    } else {
        match service_of_pdu(b[0] / 16, b[1]) {
            Ok(s) => Ok(ApduModel { service: s, payload: b.subrange(4, b.len() as int) }),
            Err(e) => Err(e),
        }
    }
}

/// The number of bytes that an integer value takes: the data length, at
/// most four.
pub open spec fn int_width(n: nat) -> nat {
    if n < 4 {
        n
    } else {
        4
    }
}

/// An unsigned (or enumerated) value: the big-endian number formed by the
/// first four bytes, or fewer if there are fewer.
pub open spec fn unsigned_of(d: Seq<u8>) -> u32 {
    be_value(d.take(int_width(d.len()) as int)) as u32
}

/// A signed value: the first four bytes (or fewer) as a two's-complement
/// big-endian number; no bytes give 0.
pub open spec fn signed_of(d: Seq<u8>) -> i32 {
    let k = int_width(d.len());
    if k == 0 {
        0
    } else if d[0] >= 128 {
        (be_value(d.take(k as int)) - pow256(k)) as i32
    } else {
        be_value(d.take(k as int)) as i32
    }
}

/// The application tag that a ReadProperty acknowledgement's tag denotes;
/// context tags and numbers without a decoder count as Null.
pub open spec fn tag_of(is_context: bool, n: u32) -> ApplicationTag {
    if is_context {
        ApplicationTag::Null
    } else if n == 0 {
        ApplicationTag::Null
    } else if n == 1 {
        ApplicationTag::Boolean
    } else if n == 2 {
        ApplicationTag::Unsigned
    } else if n == 3 {
        ApplicationTag::Signed
    } else if n == 4 {
        ApplicationTag::Real
    } else if n == 5 {
        ApplicationTag::Double
    } else if n == 7 {
        ApplicationTag::CharacterString
    } else if n == 9 {
        ApplicationTag::Enumerated
    } else if n == 12 {
        ApplicationTag::ObjectIdentifier
    } else {
        ApplicationTag::Null
    }
}

/// The value that the bytes `d` hold under an application tag.
pub open spec fn spec_value_by_tag(tag: ApplicationTag, d: Seq<u8>) -> Option<ValueModel> {
    match tag {
        ApplicationTag::Null => Some(ValueModel::Null),
        ApplicationTag::Boolean => Some(ValueModel::Boolean(d.len() > 0 && d[0] != 0)),
        ApplicationTag::Unsigned => Some(ValueModel::Unsigned(unsigned_of(d))),
        ApplicationTag::Signed => Some(ValueModel::Signed(signed_of(d))),
        ApplicationTag::Real => if d.len() >= 4 {
            Some(ValueModel::Real(be_value(d.take(4)) as u32))
        } else {
            None
        },
        ApplicationTag::Double => if d.len() >= 8 {
            Some(ValueModel::Double(be_value(d.take(8)) as u64))
        } else {
            None
        },
        ApplicationTag::CharacterString => if d.len() >= 2 && d.len() >= 2 + d[1] {
            Some(ValueModel::String(spec_utf8_lossy(d.subrange(2, 2 + d[1]))))
        } else {
            None
        },
        ApplicationTag::Enumerated => Some(ValueModel::Unsigned(unsigned_of(d))),
        ApplicationTag::ObjectIdentifier => if d.len() >= 4 {
            match spec_oid_decode(be_value(d.take(4)) as u32) {
                Some(o) => Some(ValueModel::ObjectIdentifier(o)),
                None => None,
            }
        } else {
            None
        },
        _ => None,
    }
}

/// The length of a value and the number of bytes the length takes: below
/// 4 the byte itself, 4 announces four more bytes, 5 two more bytes.
pub open spec fn spec_parse_length(d: Seq<u8>) -> Option<(u32, nat)> {
    if d.len() == 0 {
        None
    } else if d[0] < 4 {
        Some((d[0] as u32, 1))
    } else if d[0] == 4 {
        if d.len() < 5 {
            None
        } else {
            Some((be_value(d.subrange(1, 5)) as u32, 5))
        }
    } else if d[0] == 5 {
        if d.len() < 3 {
            None
        } else {
            Some((be_value(d.subrange(1, 3)) as u32, 3))
        }
    } else {
        None
    }
}

/// The value in a ReadProperty acknowledgement: after the object
/// identifier (4 bytes), the property (2 bytes) and the array index
/// (4 bytes) comes a tag byte whose bits 7..4 give the tag number (15
/// meaning that the next byte holds it) and whose bit 3 is the class bit
/// (set for a context tag), then the length, then the value.
pub open spec fn spec_parse_ack(a: ApduModel) -> Option<ValueModel> {
    let p = a.payload;
    if a.service != BacnetService::ReadPropertyAck || p.len() <= 10 {
        None
    } else {
        let short = p[10] / 16;
        let is_context = (p[10] / 8) % 2 == 1;
        if short == 15 && p.len() <= 11 {
            None
        } else {
            let tag_number: u32 = if short == 15 {
                p[11] as u32
            } else {
                short as u32
            };
            let pos: int = if short == 15 {
                12
            } else {
                11
            };
            match spec_parse_length(p.subrange(pos, p.len() as int)) {
                None => None,
                Some((length, size)) => {
                    let start = pos + size;
                    if start + length > p.len() {
                        None
                    } else {
                        spec_value_by_tag(
                            tag_of(is_context, tag_number),
                            p.subrange(start, start + length),
                        )
                    }
                },
            }
        }
    }
}

impl Apdu {
    /// A ReadProperty request for a property of an object.
    pub fn read_property_request(
        _dest_device: u8,
        object_id: ObjectIdentifier,
        property: BacnetProperty,
        array_index: Option<u32>,
    ) -> (r: Self)
        ensures
            r@ == (ApduModel {
                service: BacnetService::ReadProperty,
                payload: read_property_payload(object_id, property, array_index),
            }),
    {
        let mut payload: Vec<u8> = Vec::new();
        push_be32(&mut payload, object_id.encode());
        push_be16(&mut payload, property.to_u16());
        match array_index {
            Some(index) => push_be32(&mut payload, index),
            None => push_be16(&mut payload, 0xFFFF),
        }
        Self { service: BacnetService::ReadProperty, payload }
    }

    /// A WriteProperty request that writes a value to a property.
    pub fn write_property_request(
        _dest_device: u8,
        object_id: ObjectIdentifier,
        property: BacnetProperty,
        value: BacnetValue,
        priority: Option<u8>,
    ) -> (r: Self)
        ensures
            r@ == (ApduModel {
                service: BacnetService::WriteProperty,
                payload: write_property_payload(object_id, property, value@, priority),
            }),
    {
        let mut payload: Vec<u8> = Vec::new();
        push_be32(&mut payload, object_id.encode());
        push_be16(&mut payload, property.to_u16());
        match priority {
            Some(p) => payload.push(p),
            None => payload.push(0xFF),
        }
        let ghost head = payload@;
        let ghost v = value@;
        assert(head =~= be32(spec_oid_encode(object_id)) + be16(property_code(property)) + seq![
            match priority {
                Some(x) => x,
                None => 0xFFu8,
            },
        ]);
        match value {
            BacnetValue::Unsigned(v) => push_be32(&mut payload, v),
            BacnetValue::Signed(v) => push_be32(&mut payload, v as u32),
            BacnetValue::Real(bits) => push_be32(&mut payload, bits),
            BacnetValue::Boolean(v) => payload.push(if v { 1 } else { 0 }),
            BacnetValue::String(s) => {
                let text = s.as_str();
                push_all(&mut payload, text.as_bytes());
            },
            _ => {},
        }
        assert(payload@ =~= head + value_bytes(v));
        Self { service: BacnetService::WriteProperty, payload }
    }

    /// Encodes the APDU.
    pub fn encode(&self) -> (r: Vec<u8>)
        ensures
            r@ == spec_apdu_encode(self@),
    {
        let mut bytes: Vec<u8> = Vec::new();
        bytes.push(0x00);
        bytes.push(self.service.to_u8());
        push_be16(&mut bytes, 1);
        push_all(&mut bytes, self.payload.as_slice());
        bytes
    }

    /// Decodes an APDU.
    pub fn decode(bytes: &[u8]) -> (r: Result<Self, &'static str>)
        ensures
            match r {
                Ok(a) => spec_apdu_decode(bytes@) == Ok::<ApduModel, Seq<char>>(a@),
                Err(e) => spec_apdu_decode(bytes@) == Err::<ApduModel, Seq<char>>(e@),
            },
    {
        if bytes.len() < 4 {
            return Err("APDU too short");
        }
        let first = bytes[0];
        let pdu_type = first & 0xF0;
        assert(pdu_type == (first / 16) * 16) by (bit_vector)
            requires
                pdu_type == first & 0xF0,
        ;
        let service_choice = bytes[1];
        let service = if pdu_type == 0x00 {
            match service_choice {
                8 => BacnetService::ReadProperty,
                12 => BacnetService::WriteProperty,
                _ => return Err("Unknown confirmed service"),
            }
        } else if pdu_type == 0x10 {
            match service_choice {
                0 => BacnetService::WhoIs,
                1 => BacnetService::IAm,
                _ => return Err("Unknown unconfirmed service"),
            }
        } else if pdu_type == 0x20 {
            match service_choice {
                8 => BacnetService::ReadProperty,
                12 => BacnetService::WriteProperty,
                _ => return Err("Unknown simple ACK"),
            }
        } else if pdu_type == 0x30 {
            match service_choice {
                8 => BacnetService::ReadPropertyAck,
                _ => return Err("Unknown complex ACK"),
            }
        } else {
            return Err("Unknown PDU type");
        };
        let payload = slice_to_vec(slice_subrange(bytes, 4, bytes.len()));
        Ok(Self { service, payload })
    }

    /// Parses the value of a ReadProperty acknowledgement; `None` when this
    /// is no such acknowledgement or its value cannot be read.
    pub fn parse_read_property_ack(&self) -> (r: Option<BacnetValue>)
        ensures
            option_value_view(r) == spec_parse_ack(self@),
    {
        if self.service != BacnetService::ReadPropertyAck {
            return None;
        }
        let payload = self.payload.as_slice();
        let n = payload.len();
        let mut pos: usize = 4 + 2 + 4;
        if pos >= n {
            return None;
        }
        let tag_byte = payload[pos];
        pos += 1;
        let short_tag = (tag_byte & 0xF0) >> 4;
        let is_context_tag = (tag_byte & 0x08) != 0;
        assert(short_tag == tag_byte / 16 && is_context_tag == ((tag_byte / 8) % 2 == 1))
            by (bit_vector)
            requires
                short_tag == (tag_byte & 0xF0) >> 4,
                is_context_tag == ((tag_byte & 0x08) != 0),
        ;
        let tag_number: u32 = if short_tag == 15 {
            if pos >= n {
                return None;
            }
            let ext_tag = payload[pos];
            pos += 1;
            ext_tag as u32
        } else {
            short_tag as u32
        };
        let (length, len_size) = match self.parse_length(slice_subrange(payload, pos, n)) {
            Some(parsed) => parsed,
            None => return None,
        };
        pos += len_size;
        if length as usize > n - pos {
            return None;
        }
        let value_data = slice_subrange(payload, pos, pos + length as usize);
        let app_tag = if is_context_tag {
            ApplicationTag::Null
        } else {
            match tag_number {
                0 => ApplicationTag::Null,
                1 => ApplicationTag::Boolean,
                2 => ApplicationTag::Unsigned,
                3 => ApplicationTag::Signed,
                4 => ApplicationTag::Real,
                5 => ApplicationTag::Double,
                7 => ApplicationTag::CharacterString,
                9 => ApplicationTag::Enumerated,
                12 => ApplicationTag::ObjectIdentifier,
                _ => ApplicationTag::Null,
            }
        };
        assert(app_tag == tag_of(is_context_tag, tag_number));
        self.parse_value_by_tag(app_tag, value_data)
    }

    /// Parses a length field of one, three or five bytes.
    pub fn parse_length(&self, data: &[u8]) -> (r: Option<(u32, usize)>)
        ensures
            match r {
                Some((length, size)) => spec_parse_length(data@) == Some((length, size as nat))
                    && size <= data@.len(),
                None => spec_parse_length(data@) is None,
            },
    {
        if data.len() == 0 {
            return None;
        }
        let first_byte = data[0];
        if first_byte < 4 {
            Some((first_byte as u32, 1))
        } else if first_byte == 4 {
            if data.len() < 5 {
                return None;
            }
            let length = u32_from_be(data[1], data[2], data[3], data[4]);
            proof {
                let s = data@.subrange(1, 5);
                assert(s.drop_last().drop_last().drop_last().drop_last() =~= Seq::<u8>::empty());
                reveal_with_fuel(be_value, 5);
            }
            Some((length, 5))
        } else if first_byte == 5 {
            if data.len() < 3 {
                return None;
            }
            let length = u16_from_be(data[1], data[2]) as u32;
            proof {
                let s = data@.subrange(1, 3);
                assert(s.drop_last().drop_last() =~= Seq::<u8>::empty());
                reveal_with_fuel(be_value, 3);
            }
            Some((length, 3))
        } else {
            None
        }
    }

    /// Reads the value that `data` holds under an application tag.
    pub fn parse_value_by_tag(&self, tag: ApplicationTag, data: &[u8]) -> (r: Option<BacnetValue>)
        ensures
            option_value_view(r) == spec_value_by_tag(tag, data@),
    {
        match tag {
            ApplicationTag::Null => Some(BacnetValue::Null),
            ApplicationTag::Boolean => {
                if data.len() > 0 {
                    Some(BacnetValue::Boolean(data[0] != 0))
                } else {
                    Some(BacnetValue::Boolean(false))
                }
            },
            ApplicationTag::Unsigned => Some(BacnetValue::Unsigned(Self::unsigned_value(data))),
            ApplicationTag::Signed => {
                let len = if data.len() < 4 {
                    data.len()
                } else {
                    4
                };
                if len == 0 {
                    return Some(BacnetValue::Signed(0));
                }
                let magnitude = be_prefix(data, len);
                proof {
                    lemma_be_value_bound(data@.take(len as int));
                    reveal_with_fuel(pow256, 5);
                }
                if data[0] >= 128 {
                    let span: i64 = if len == 1 {
                        0x100
                    } else if len == 2 {
                        0x1_0000
                    } else if len == 3 {
                        0x100_0000
                    } else {
                        0x1_0000_0000
                    };
                    Some(BacnetValue::Signed((magnitude as i64 - span) as i32))
                } else {
                    Some(BacnetValue::Signed(magnitude as i32))
                }
            },
            ApplicationTag::Real => {
                if data.len() >= 4 {
                    proof {
                        lemma_be_value_bound(data@.take(4));
                        reveal_with_fuel(pow256, 5);
                    }
                    Some(BacnetValue::Real(be_prefix(data, 4) as u32))
                } else {
                    None
                }
            },
            ApplicationTag::Double => {
                if data.len() >= 8 {
                    Some(BacnetValue::Double(be_prefix(data, 8)))
                } else {
                    None
                }
            },
            ApplicationTag::CharacterString => {
                if data.len() >= 2 {
                    let str_len = data[1] as usize;
                    if data.len() >= 2 + str_len {
                        let string = utf8_lossy(slice_subrange(data, 2, 2 + str_len));
                        Some(BacnetValue::String(string))
                    } else {
                        None
                    }
                } else {
                    None
                }
            },
            ApplicationTag::Enumerated => Some(BacnetValue::Unsigned(Self::unsigned_value(data))),
            ApplicationTag::ObjectIdentifier => {
                if data.len() >= 4 {
                    proof {
                        lemma_be_value_bound(data@.take(4));
                        reveal_with_fuel(pow256, 5);
                    }
                    let encoded = be_prefix(data, 4) as u32;
                    match ObjectIdentifier::decode(encoded) {
                        Some(o) => Some(BacnetValue::ObjectIdentifier(o)),
                        None => None,
                    }
                } else {
                    None
                }
            },
            _ => None,
        }
    }

    /// The big-endian number formed by the first four bytes of `data`, or
    /// fewer if there are fewer.
    fn unsigned_value(data: &[u8]) -> (r: u32)
        ensures
            r == unsigned_of(data@),
    {
        let len = if data.len() < 4 {
            data.len()
        } else {
            4
        };
        proof {
            lemma_be_value_bound(data@.take(len as int));
            lemma_pow256_mono(len as nat, 4);
            reveal_with_fuel(pow256, 5);
        }
        be_prefix(data, len) as u32
    }
}

/// Four big-endian bytes read back as the number they lay out.
proof fn lemma_be_value_be32(x: u32)
    ensures
        be_value(be32(x)) == x,
        be_value(be32(x).take(4)) == x,
{
    let s = be32(x);
    lemma_be32_value(x);
    assert(s.take(4) =~= s);
    assert(s.drop_last().drop_last().drop_last().drop_last() =~= Seq::<u8>::empty());
    reveal_with_fuel(be_value, 5);
}

/// An acknowledgement whose value carries application tag 2 (unsigned,
/// tag byte 0x20) or 4 (real, tag byte 0x40) with a two-byte length of 4
/// yields the four value bytes as an unsigned number or as the bits of a
/// real, and one with application tag 1 (boolean, tag byte 0x10) and a
/// one-byte value yields whether that byte is non-zero, whatever the ten
/// bytes of object, property and array index before it.
pub proof fn lemma_ack_values(header: Seq<u8>, x: u32, b: u8)
    requires
        header.len() == 10,
    ensures
        spec_parse_ack(
            ApduModel {
                service: BacnetService::ReadPropertyAck,
                payload: header + seq![0x20u8, 5u8, 0u8, 4u8] + be32(x),
            },
        ) == Some(ValueModel::Unsigned(x)),
        spec_parse_ack(
            ApduModel {
                service: BacnetService::ReadPropertyAck,
                payload: header + seq![0x40u8, 5u8, 0u8, 4u8] + be32(x),
            },
        ) == Some(ValueModel::Real(x)),
        spec_parse_ack(
            ApduModel {
                service: BacnetService::ReadPropertyAck,
                payload: header + seq![0x10u8, 1u8, b],
            },
        ) == Some(ValueModel::Boolean(b != 0)),
{
    lemma_be_value_be32(x);
    let len_field = seq![0u8, 4u8];
    assert(len_field.drop_last().drop_last() =~= Seq::<u8>::empty());
    assert(be_value(len_field) == 4) by {
        reveal_with_fuel(be_value, 3);
    }
    let p = header + seq![0x20u8, 5u8, 0u8, 4u8] + be32(x);
    assert(p.subrange(11, 18).subrange(1, 3) =~= len_field);
    assert(p.subrange(14, 18) =~= be32(x));
    let q = header + seq![0x40u8, 5u8, 0u8, 4u8] + be32(x);
    assert(q.subrange(11, 18).subrange(1, 3) =~= len_field);
    assert(q.subrange(14, 18) =~= be32(x));
    let t = header + seq![0x10u8, 1u8, b];
    assert(t.subrange(11, 13)[0] == 1u8);
    assert(t.subrange(12, 13) =~= seq![b]);
}

/// An APDU decodes exactly when it has its four header bytes and its PDU
/// type (the high nibble of the first byte) and service choice (the second
/// byte) form a known pair: choice 8 or 12 for a confirmed request (0) or a
/// simple acknowledgement (2), choice 0 or 1 for an unconfirmed request
/// (1), choice 8 for a complex acknowledgement (3). For the first three
/// kinds the decoded service's number is the service choice itself; a
/// complex acknowledgement is a ReadProperty acknowledgement. The payload
/// is everything after the header.
pub proof fn lemma_apdu_decode_services(b: Seq<u8>)
    ensures
        spec_apdu_decode(b) is Ok <==> (b.len() >= 4 && ({
            let pdu = b[0] / 16;
            let choice = b[1];
            ||| (pdu == 0 || pdu == 2) && (choice == 8 || choice == 12)
            ||| pdu == 1 && (choice == 0 || choice == 1)
            ||| pdu == 3 && choice == 8
        })),
        spec_apdu_decode(b) is Ok ==> {
            let a = spec_apdu_decode(b)->Ok_0;
            &&& a.payload == b.subrange(4, b.len() as int)
            &&& b[0] / 16 < 3 ==> service_code(a.service) == b[1]
            &&& b[0] / 16 == 3 ==> a.service == BacnetService::ReadPropertyAck
        },
{
}

/// A big-endian number of one to four bytes lies between the multiples of
/// 256^(k-1) that its first byte marks.
proof fn lemma_be_first_byte(s: Seq<u8>)
    requires
        1 <= s.len() <= 4,
    ensures
        s[0] * pow256((s.len() - 1) as nat) <= be_value(s) < (s[0] + 1) * pow256(
            (s.len() - 1) as nat,
        ),
        pow256(s.len()) == 256 * pow256((s.len() - 1) as nat),
{
    reveal_with_fuel(pow256, 5);
    assert(pow256(0) == 1 && pow256(1) == 256 && pow256(2) == 0x1_0000 && pow256(3)
        == 0x100_0000 && pow256(4) == 0x1_0000_0000);
    let n = s.len();
    let s1 = s.drop_last();
    let s2 = s1.drop_last();
    let s3 = s2.drop_last();
    let e = Seq::<u8>::empty();
    assert(be_value(e) == 0);
    if n == 1 {
        assert(s1 =~= e);
        assert(be_value(s) == s[0]);
        assert(pow256((n - 1) as nat) == 1);
        let q = pow256((n - 1) as nat);
        let v = be_value(s);
        assert(s[0] * q <= v < (s[0] + 1) * q) by (nonlinear_arith)
            requires
                q == 1,
                v == s[0],
                true,
        ;
    } else if n == 2 {
        assert(s2 =~= e);
        assert(be_value(s1) == s[0]);
        assert(be_value(s) == s[0] * 256 + s[1]);
        assert(pow256((n - 1) as nat) == 256);
        let q = pow256((n - 1) as nat);
        let v = be_value(s);
        assert(s[0] * q <= v < (s[0] + 1) * q) by (nonlinear_arith)
            requires
                q == 256,
                v == s[0] * 256 + s[1],
                s[1] < 256,
        ;
    } else if n == 3 {
        assert(s3 =~= e);
        assert(be_value(s2) == s[0]);
        assert(be_value(s1) == s[0] * 256 + s[1]);
        assert(be_value(s) == s[0] * 0x1_0000 + s[1] * 256 + s[2]);
        assert(pow256((n - 1) as nat) == 0x1_0000);
        let q = pow256((n - 1) as nat);
        let v = be_value(s);
        assert(s[0] * q <= v < (s[0] + 1) * q) by (nonlinear_arith)
            requires
                q == 0x1_0000,
                v == s[0] * 0x1_0000 + s[1] * 256 + s[2],
                s[1] < 256, s[2] < 256,
        ;
    } else {
        assert(s3.drop_last() =~= e);
        assert(be_value(s3) == s[0]);
        assert(be_value(s2) == s[0] * 256 + s[1]);
        assert(be_value(s1) == s[0] * 0x1_0000 + s[1] * 256 + s[2]);
        assert(be_value(s) == s[0] * 0x100_0000 + s[1] * 0x1_0000 + s[2] * 256 + s[3]);
        assert(pow256((n - 1) as nat) == 0x100_0000);
        let q = pow256((n - 1) as nat);
        let v = be_value(s);
        assert(s[0] * q <= v < (s[0] + 1) * q) by (nonlinear_arith)
            requires
                q == 0x100_0000,
                v == s[0] * 0x100_0000 + s[1] * 0x1_0000 + s[2] * 256 + s[3],
                s[1] < 256, s[2] < 256, s[3] < 256,
        ;
    }
}

/// Whether `r` is a signed value `v` that is the `k`-byte two's-complement
/// reading of the big-endian number `u`: `v` lies in the signed range of
/// `k` bytes, agrees with `u` modulo 256^k, and is negative exactly when
/// the top bit of the first byte is set.
pub open spec fn is_twos_complement(r: Option<ValueModel>, u: nat, k: nat, first: u8) -> bool {
    match r {
        Some(ValueModel::Signed(v)) => {
            &&& -(pow256(k) as int) / 2 <= v < (pow256(k) as int) / 2
            &&& (v - u) % (pow256(k) as int) == 0
            &&& (v < 0 <==> first >= 128)
        },
        _ => false,
    }
}

/// A signed value of one to four bytes (the first four if there are more)
/// is their two's-complement big-endian reading: a first byte with its top
/// bit set makes it negative, e.g. [0xFF] is -1 and [0x80] is -128. No
/// bytes read as 0.
pub proof fn lemma_signed_values(d: Seq<u8>)
    ensures
        d.len() == 0 ==> spec_value_by_tag(ApplicationTag::Signed, d) == Some(ValueModel::Signed(0)),
        d.len() > 0 ==> is_twos_complement(
            spec_value_by_tag(ApplicationTag::Signed, d),
            be_value(d.take(if d.len() < 4 { d.len() as int } else { 4 })),
            if d.len() < 4 { d.len() } else { 4 },
            d[0],
        ),
{
    if d.len() > 0 {
        let k: nat = if d.len() < 4 { d.len() } else { 4 };
        let t = d.take(k as int);
        assert(t.len() == k);
        lemma_be_first_byte(t);
        assert(t[0] == d[0]);
        let u = be_value(t);
        let q = pow256((k - 1) as nat);
        assert(q == 1 || q == 256 || q == 0x1_0000 || q == 0x100_0000) by {
            reveal_with_fuel(pow256, 5);
        }
        let p = pow256(k) as int;
        assert(p == 256 * q);
        assert(p > 0);
        assert(t[0] * q <= u < (t[0] + 1) * q);
        if d[0] >= 128 {
            assert(128 * q <= t[0] * q) by (nonlinear_arith)
                requires
                    t[0] >= 128,
                    q >= 1,
            ;
            assert((t[0] + 1) * q <= 256 * q) by (nonlinear_arith)
                requires
                    t[0] < 256,
                    q >= 1,
            ;
            assert(-0x8000_0000 <= u - p < 0);
            assert(((u - p) as i32) as int == u - p);
            assert((((u - p) as i32) - u) % p == 0);
        } else {
            assert((t[0] + 1) * q <= 128 * q) by (nonlinear_arith)
                requires
                    t[0] < 128,
                    q >= 1,
            ;
            assert(0 <= u < 0x8000_0000);
            assert((u as i32) as int == u);
            assert((((u as i32) as int) - u) % p == 0);
        }
    }
}

/// The layout of a WriteProperty payload: four bytes that read back as the
/// encoded object identifier, two that read back as the property number,
/// the priority byte (0xFF when there is none), then the value. A boolean
/// takes exactly one byte, 1 for true and 0 for false; an unsigned number,
/// a signed number and a real take four bytes that read back, big-endian,
/// as the number, as the signed number in two's complement, and as the
/// real's bits; a string takes its UTF-8 bytes; other values take none.
pub proof fn lemma_write_payload_layout(
    o: ObjectIdentifier,
    p: BacnetProperty,
    v: ValueModel,
    priority: Option<u8>,
)
    ensures
        ({
            let w = write_property_payload(o, p, v, priority);
            &&& w.len() >= 7
            &&& be_value(w.take(4)) == spec_oid_encode(o)
            &&& w[4] * 256 + w[5] == property_code(p)
            &&& w[6] == match priority {
                Some(x) => x,
                None => 0xFFu8,
            }
            &&& match v {
                ValueModel::Boolean(b) => w.len() == 8 && w[7] == (if b {
                    1u8
                } else {
                    0u8
                }),
                ValueModel::Unsigned(x) => w.len() == 11 && be_value(w.skip(7)) == x,
                ValueModel::Signed(x) => w.len() == 11 && (be_value(w.skip(7)) as u32) as i32
                    == x,
                ValueModel::Real(bits) => w.len() == 11 && be_value(w.skip(7)) == bits,
                ValueModel::String(t) => w.skip(7) == encode_utf8(t),
                _ => w.len() == 7,
            }
        }),
{
    let w = write_property_payload(o, p, v, priority);
    let id = spec_oid_encode(o);
    lemma_be_value_be32(id);
    assert(w.take(4) =~= be32(id));
    lemma_be16_value(property_code(p));
    match v {
        ValueModel::Unsigned(x) => {
            lemma_be_value_be32(x);
            assert(w.skip(7) =~= be32(x));
        },
        ValueModel::Signed(x) => {
            lemma_be_value_be32(x as u32);
            assert(w.skip(7) =~= be32(x as u32));
            assert(((x as u32) as i32) == x) by (bit_vector);
        },
        ValueModel::Real(bits) => {
            lemma_be_value_be32(bits);
            assert(w.skip(7) =~= be32(bits));
        },
        ValueModel::String(t) => {
            assert(w.skip(7) =~= encode_utf8(t));
        },
        _ => {},
    }
}

/// Decoding the encoding of a ReadProperty or WriteProperty request gives
/// the request back.
pub proof fn lemma_apdu_roundtrip(a: ApduModel)
    requires
        a.service == BacnetService::ReadProperty || a.service == BacnetService::WriteProperty,
    ensures
        spec_apdu_decode(spec_apdu_encode(a)) == Ok::<ApduModel, Seq<char>>(a),
{
    let b = spec_apdu_encode(a);
    assert(b.subrange(4, b.len() as int) =~= a.payload);
}


/// A device found on the bus.
#[derive(Debug, Clone)]
pub struct DiscoveredDevice {
    pub device_id: u32,
    pub mac_address: u8,
    pub vendor_id: Option<u16>,
    pub object_name: Option<String>,
}

/// Device discovery by WhoIs / IAm.
#[derive(Debug)]
pub struct BacnetDiscovery {
    pub devices: Vec<DiscoveredDevice>,
}

/// The data of a WhoIs frame: for a given device, its low and high 16 bits,
/// each as a four-byte big-endian number; for all devices, 0xFFFF then 0.
pub open spec fn who_is_payload(target: Option<u32>) -> Seq<u8> {
    match target {
        Some(id) => be32(id % 0x1_0000) + be32(id / 0x1_0000),
        None => be16(0xFFFF) + be16(0),
    }
}

/// The WhoIs frame: broadcast from station 1, no reply expected.
pub open spec fn who_is_frame(target: Option<u32>) -> FrameModel {
    FrameModel {
        frame_type: FRAME_TYPE_BACNET_DATA_NOT_EXPECTING_REPLY,
        destination: 0xFF,
        source: 1,
        length: length_for(who_is_payload(target).len()),
        data: who_is_payload(target),
    }
}

/// A frame from a real station (neither 0 nor the broadcast address) that
/// carries an IAm APDU.
pub open spec fn is_i_am_frame(f: FrameModel) -> bool {
    &&& f.source != 0xFF
    &&& f.source != 0
    &&& spec_apdu_decode(f.data) is Ok
    &&& spec_apdu_decode(f.data)->Ok_0.service == BacnetService::IAm
}

impl BacnetDiscovery {
    /// An empty discovery.
    pub fn new() -> (r: Self)
        ensures
            r.devices@.len() == 0,
    {
        Self { devices: Vec::new() }
    }

    /// The WhoIs frame for one device, or for all devices.
    pub fn who_is(&self, target_device: Option<u32>) -> (r: MstpFrame)
        ensures
            r@ == who_is_frame(target_device),
    {
        let mut payload: Vec<u8> = Vec::new();
        match target_device {
            Some(device_id) => {
                let low_id = device_id & 0xFFFF;
                let high_id = (device_id >> 16) & 0xFFFF;
                assert(low_id == device_id % 0x1_0000 && high_id == device_id / 0x1_0000)
                    by (bit_vector)
                    requires
                        low_id == device_id & 0xFFFF,
                        high_id == (device_id >> 16) & 0xFFFF,
                ;
                push_be32(&mut payload, low_id);
                push_be32(&mut payload, high_id);
            },
            None => {
                push_be16(&mut payload, 0xFFFF);
                push_be16(&mut payload, 0x0000);
            },
        }
        let destination: u8 = 0xFF;
        let source: u8 = 1;
        MstpFrame::data_no_reply(destination, source, payload)
    }

    /// Reads an IAm frame: a device at the frame's source address, with no
    /// further details; `None` for any other frame. The list of devices is
    /// left as it is.
    pub fn process_i_am(&mut self, frame: &MstpFrame) -> (r: Option<DiscoveredDevice>)
        ensures
            final(self).devices@ == old(self).devices@,
            r is Some <==> is_i_am_frame(frame@),
            r matches Some(d) ==> d.device_id == 0 && d.mac_address == frame.source
                && d.vendor_id is None && d.object_name is None,
    {
        if frame.source == 0xFF || frame.source == 0 {
            return None;
        }
        match Apdu::decode(frame.data.as_slice()) {
            Ok(apdu) => {
                if apdu.service == BacnetService::IAm {
                    Some(
                        DiscoveredDevice {
                            device_id: 0,
                            mac_address: frame.source,
                            vendor_id: None,
                            object_name: None,
                        },
                    )
                } else {
                    None
                }
            },
            Err(_) => None,
        }
    }
}

} // verus!
