//! Settings of the bridge: their defaults, and how the `rs485-module`
//! configuration entries override them.
use vstd::prelude::*;
use vstd::utf8::{encode_utf8, is_ascii_chars, is_ascii_chars_encode_utf8};
use crate::text::str_equal;

verus! {

/// MQTT quality-of-service levels.
#[derive(Debug, Clone, Copy, PartialEq, Eq, Structural)]
pub enum QosLevel {
    AtMostOnce,
    AtLeastOnce,
    ExactlyOnce,
}

/// Serial parity settings.
#[derive(Debug, Clone, Copy, PartialEq, Eq, Structural)]
pub enum SerialParity {
    NoParity,
    Even,
    Odd,
}

/// MQTT connection settings.
#[derive(Debug, Clone, PartialEq)]
pub struct MqttConfig {
    pub enabled: bool,
    pub transport: String,
    pub host: String,
    pub port: u16,
    pub username: Option<String>,
    pub password: Option<String>,
    pub client_id: String,
    pub keepalive: u64,
    pub uplink_topic: String,
    pub downlink_topic: String,
    pub qos_level: QosLevel,
}

/// Serial port settings.
#[derive(Debug, Clone, PartialEq)]
pub struct SerialConfig {
    pub enabled: bool,
    pub device: String,
    pub baud_rate: u32,
    pub data_bits: u8,
    pub parity: String,
    pub stop_bits: u8,
    pub flow_control: String,
}

/// BACnet MS/TP settings.
#[derive(Debug, Clone, PartialEq)]
pub struct BacnetConfig {
    pub enabled: bool,
    pub device_mac: u8,
    pub max_master: u8,
    pub max_info_frames: u8,
    pub reply_timeout: u64,
    pub timeout_multiplier: u8,
    pub token_hold_time: u64,
    pub polling_interval: u64,
    /// `once` or `poll`.
    pub work_mode: String,
    pub object_type: String,
    pub object_instance: u32,
    pub property_identifier: String,
}

/// All settings of the bridge.
#[derive(Debug, Clone, PartialEq)]
pub struct Config {
    pub mqtt: MqttConfig,
    pub serial: SerialConfig,
    pub bacnet: BacnetConfig,
}

/// The default settings, for the given MQTT client id.
pub open spec fn is_default_config(c: Config, client_id: Seq<char>) -> bool {
    &&& c.mqtt.enabled
    &&& c.mqtt.transport@ == "tcp"@
    &&& c.mqtt.host@ == "10.0.0.104"@
    &&& c.mqtt.port == 1883
    &&& c.mqtt.username is None
    &&& c.mqtt.password is None
    &&& c.mqtt.client_id@ == client_id
    &&& c.mqtt.keepalive == 60
    &&& c.mqtt.uplink_topic@ == "rs485/bacnet/uplink"@
    &&& c.mqtt.downlink_topic@ == "rs485/bacnet/downlink"@
    &&& c.mqtt.qos_level == QosLevel::AtMostOnce
    &&& c.serial.enabled
    &&& c.serial.device@ == "/dev/RS485-1"@
    &&& c.serial.baud_rate == 9600
    &&& c.serial.data_bits == 8
    &&& c.serial.parity@ == "none"@
    &&& c.serial.stop_bits == 1
    &&& c.serial.flow_control@ == "none"@
    &&& c.bacnet.enabled
    &&& c.bacnet.device_mac == 1
    &&& c.bacnet.max_master == 127
    &&& c.bacnet.max_info_frames == 1
    &&& c.bacnet.reply_timeout == 200
    &&& c.bacnet.timeout_multiplier == 3
    &&& c.bacnet.token_hold_time == 10
    &&& c.bacnet.polling_interval == 5
    &&& c.bacnet.work_mode@ == "once"@
    &&& c.bacnet.object_type@ == "analogInput"@
    &&& c.bacnet.object_instance == 0
    &&& c.bacnet.property_identifier@ == "presentValue"@
}

/// The default settings; the MQTT client id is given by the caller.
pub fn default_config(client_id: String) -> (r: Config)
    ensures
        is_default_config(r, client_id@),
{
    Config {
        mqtt: MqttConfig {
            enabled: true,
            transport: "tcp".to_owned(),
            host: "10.0.0.104".to_owned(),
            port: 1883,
            username: None,
            password: None,
            client_id,
            keepalive: 60,
            uplink_topic: "rs485/bacnet/uplink".to_owned(),
            downlink_topic: "rs485/bacnet/downlink".to_owned(),
            qos_level: QosLevel::AtMostOnce,
        },
        serial: SerialConfig {
            enabled: true,
            device: "/dev/RS485-1".to_owned(),
            baud_rate: 9600,
            data_bits: 8,
            parity: "none".to_owned(),
            stop_bits: 1,
            flow_control: "none".to_owned(),
        },
        bacnet: BacnetConfig {
            enabled: true,
            device_mac: 1,
            max_master: 127,
            max_info_frames: 1,
            reply_timeout: 200,
            timeout_multiplier: 3,
            token_hold_time: 10,
            polling_interval: 5,
            work_mode: "once".to_owned(),
            object_type: "analogInput".to_owned(),
            object_instance: 0,
            property_identifier: "presentValue".to_owned(),
        },
    }
}

/// An ASCII decimal digit.
pub open spec fn is_digit(b: u8) -> bool {
    0x30 <= b <= 0x39
}

/// The number that a sequence of decimal digits spells.
pub open spec fn digits_value(d: Seq<u8>) -> nat
    decreases d.len(),
{
    if d.len() == 0 {
        0
    } else {
        digits_value(d.drop_last()) * 10 + (d.last() - 0x30) as nat
    }
}

/// The digits of an unsigned decimal: the text after one optional '+'.
pub open spec fn decimal_digits(b: Seq<u8>) -> Seq<u8> {
    if b.len() > 0 && b[0] == 0x2B {
        b.drop_first()
    } else {
        b
    }
}

/// What `str::parse` gives for an unsigned integer type whose largest
/// value is `max`: an optional '+' and at least one decimal digit, with a
/// value up to `max`; anything else is an error.
pub open spec fn parse_unsigned(s: Seq<char>, max: nat) -> Option<nat> {
    let d = decimal_digits(encode_utf8(s));
    if d.len() > 0 && (forall|i: int| 0 <= i < d.len() ==> is_digit(#[trigger] d[i]))
        && digits_value(d) <= max {
        Some(digits_value(d))
    } else {
        None
    }
}

/// Parses an unsigned decimal whose value is at most `max`, as `str::parse`
/// does for an unsigned integer type whose largest value is `max`.
pub fn parse_unsigned_str(s: &str, max: u64) -> (r: Option<u64>)
    ensures
        match r {
            Some(v) => parse_unsigned(s@, max as nat) == Some(v as nat),
            None => parse_unsigned(s@, max as nat) is None,
        },
{
    let b = s.as_bytes();
    let n = b.len();
    let start: usize = if n > 0 && b[0] == 0x2B {
        1
    } else {
        0
    };
    let ghost d = decimal_digits(b@);
    assert(d =~= b@.subrange(start as int, n as int));
    if start == n {
        return None;
    }
    let mut acc: u128 = 0;
    let mut too_large = false;
    let mut i = start;
    while i < n
        invariant
            start <= i <= n,
            n == b@.len(),
            d == b@.subrange(start as int, n as int),
            d == decimal_digits(encode_utf8(s@)),
            forall|j: int| 0 <= j < i - start ==> is_digit(#[trigger] d[j]),
            too_large ==> digits_value(d.take(i - start)) > max,
            !too_large ==> acc == digits_value(d.take(i - start)) && acc <= max,
        decreases n - i,
    {
        let c = b[i];
        if c < 0x30 || c > 0x39 {
            assert(!is_digit(d[i - start]));
            return None;
        }
        assert(d.take(i - start + 1).drop_last() == d.take(i - start));
        if !too_large {
            acc = acc * 10 + (c - 0x30) as u128;
            if acc > max as u128 {
                too_large = true;
            }
        }
        i = i + 1;
    }
    assert(d.take(n - start) == d);
    if too_large {
        None
    } else {
        Some(acc as u64)
    }
}

/// A parsed number, or a default when the text is no number in range.
pub open spec fn number_or(s: Seq<char>, max: nat, default: nat) -> nat {
    match parse_unsigned(s, max) {
        Some(v) => v,
        None => default,
    }
}

/// The settings after the entry `key` was found with the text `value`.
pub open spec fn with_setting(c: Config, key: Seq<char>, value: String) -> Config {
    if key == "rs485-module.mqtt.host"@ {
        Config { mqtt: MqttConfig { host: value, ..c.mqtt }, ..c }
    } else if key == "rs485-module.mqtt.port"@ {
        Config { mqtt: MqttConfig { port: number_or(value@, 0xFFFF, 1883) as u16, ..c.mqtt }, ..c }
    } else if key == "rs485-module.mqtt.uplink_topic"@ {
        Config { mqtt: MqttConfig { uplink_topic: value, ..c.mqtt }, ..c }
    } else if key == "rs485-module.mqtt.downlink_topic"@ {
        Config { mqtt: MqttConfig { downlink_topic: value, ..c.mqtt }, ..c }
    } else if key == "rs485-module.mqtt.username"@ {
        Config { mqtt: MqttConfig { username: Some(value), ..c.mqtt }, ..c }
    } else if key == "rs485-module.mqtt.password"@ {
        Config { mqtt: MqttConfig { password: Some(value), ..c.mqtt }, ..c }
    } else if key == "rs485-module.serial.device"@ {
        Config { serial: SerialConfig { device: value, ..c.serial }, ..c }
    } else if key == "rs485-module.serial.baudrate"@ {
        Config {
            serial: SerialConfig {
                baud_rate: number_or(value@, 0xFFFF_FFFF, 9600) as u32,
                ..c.serial
            },
            ..c
        }
    } else if key == "rs485-module.protocol.type"@ {
        Config { bacnet: BacnetConfig { enabled: value@ == "bacnet-mstp"@, ..c.bacnet }, ..c }
    } else if key == "rs485-module.protocol.device_mac"@ {
        Config {
            bacnet: BacnetConfig { device_mac: number_or(value@, 0xFF, 1) as u8, ..c.bacnet },
            ..c
        }
    } else if key == "rs485-module.protocol.bacnet_work_mode"@ {
        Config { bacnet: BacnetConfig { work_mode: value, ..c.bacnet }, ..c }
    } else if key == "rs485-module.protocol.polling_interval"@ {
        Config {
            bacnet: BacnetConfig {
                polling_interval: number_or(value@, 0xFFFF_FFFF_FFFF_FFFF, 5) as u64,
                ..c.bacnet
            },
            ..c
        }
    } else if key == "rs485-module.protocol.object_type"@ {
        Config { bacnet: BacnetConfig { object_type: value, ..c.bacnet }, ..c }
    } else if key == "rs485-module.protocol.object_instance"@ {
        Config {
            bacnet: BacnetConfig {
                object_instance: number_or(value@, 0xFFFF_FFFF, 0) as u32,
                ..c.bacnet
            },
            ..c
        }
    } else if key == "rs485-module.protocol.property_identifier"@ {
        Config { bacnet: BacnetConfig { property_identifier: value, ..c.bacnet }, ..c }
    } else {
        c
    }
}

/// A text of one or more ASCII decimal digits, without sign.
pub open spec fn is_decimal_text(s: Seq<char>) -> bool {
    &&& s.len() > 0
    &&& forall|i: int| 0 <= i < s.len() ==> '0' <= #[trigger] s[i] <= '9'
}

/// The number that a text of decimal digits spells.
pub open spec fn decimal_text_value(s: Seq<char>) -> nat
    decreases s.len(),
{
    if s.len() == 0 {
        0
    } else {
        decimal_text_value(s.drop_last()) * 10 + ((s.last() as u8) - 0x30) as nat
    }
}

/// The UTF-8 bytes of decimal digits spell the same number as the digits.
proof fn lemma_digit_bytes(s: Seq<char>, b: Seq<u8>)
    requires
        b.len() == s.len(),
        forall|i: int| 0 <= i < s.len() ==> '0' <= #[trigger] s[i] <= '9',
        forall|i: int| 0 <= i < s.len() ==> #[trigger] b[i] == s[i] as u8,
    ensures
        forall|i: int| 0 <= i < b.len() ==> is_digit(#[trigger] b[i]),
        digits_value(b) == decimal_text_value(s),
    decreases s.len(),
{
    assert forall|i: int| 0 <= i < b.len() implies is_digit(#[trigger] b[i]) by {
        let c = s[i];
        assert('0' <= c <= '9');
        assert(b[i] == c as u8);
    }
    if s.len() > 0 {
        let s1 = s.drop_last();
        let b1 = b.drop_last();
        assert forall|i: int| 0 <= i < s1.len() implies '0' <= #[trigger] s1[i] <= '9' by {
            assert(s1[i] == s[i]);
        }
        assert forall|i: int| 0 <= i < s1.len() implies #[trigger] b1[i] == s1[i] as u8 by {
            assert(s1[i] == s[i]);
            assert(b1[i] == b[i]);
        }
        lemma_digit_bytes(s1, b1);
        assert(b.last() == s.last() as u8);
    }
}

/// A text of decimal digits parses to the number it spells when that
/// number is at most `max`, and to nothing otherwise; a text that parses
/// gives a number of at most `max`, and parses to the same number under
/// any larger bound.
pub proof fn lemma_parse_decimal_text(s: Seq<char>, max: nat, larger: nat)
    ensures
        is_decimal_text(s) ==> parse_unsigned(s, max) == if decimal_text_value(s) <= max {
            Some(decimal_text_value(s))
        } else {
            None
        },
        parse_unsigned(s, max) matches Some(n) ==> n <= max,
        parse_unsigned(s, max) is Some && max <= larger ==> parse_unsigned(s, larger)
            == parse_unsigned(s, max),
{
    if is_decimal_text(s) {
        assert(is_ascii_chars(s)) by {
            assert forall|i: int| 0 <= i < s.len() implies '\0' <= #[trigger] s[i] <= '\u{7f}' by {
                assert('0' <= s[i] <= '9');
            }
        }
        is_ascii_chars_encode_utf8(s);
        let b = encode_utf8(s);
        assert(b[0] == s[0] as u8);
        assert('0' <= s[0] <= '9');
        assert(decimal_digits(b) == b);
        lemma_digit_bytes(s, b);
    }
}

/// The number settings take the number their text spells when it fits
/// their field (port: 16 bits; baud rate and object instance: 32 bits;
/// device address: 8 bits; polling interval: 64 bits), and their default
/// (1883, 9600, 0, 1, 5) when the text is no number that fits.
pub proof fn lemma_number_settings(c: Config, value: String)
    ensures
        is_decimal_text(value@) && decimal_text_value(value@) <= 0xFFFF ==> with_setting(
            c,
            "rs485-module.mqtt.port"@,
            value,
        ).mqtt.port == decimal_text_value(value@),
        parse_unsigned(value@, 0xFFFF) is None ==> with_setting(
            c,
            "rs485-module.mqtt.port"@,
            value,
        ).mqtt.port == 1883,
        is_decimal_text(value@) && decimal_text_value(value@) <= 0xFFFF_FFFF ==> with_setting(
            c,
            "rs485-module.serial.baudrate"@,
            value,
        ).serial.baud_rate == decimal_text_value(value@),
        parse_unsigned(value@, 0xFFFF_FFFF) is None ==> with_setting(
            c,
            "rs485-module.serial.baudrate"@,
            value,
        ).serial.baud_rate == 9600,
        is_decimal_text(value@) && decimal_text_value(value@) <= 0xFF ==> with_setting(
            c,
            "rs485-module.protocol.device_mac"@,
            value,
        ).bacnet.device_mac == decimal_text_value(value@),
        parse_unsigned(value@, 0xFF) is None ==> with_setting(
            c,
            "rs485-module.protocol.device_mac"@,
            value,
        ).bacnet.device_mac == 1,
        is_decimal_text(value@) && decimal_text_value(value@) <= 0xFFFF_FFFF_FFFF_FFFF
            ==> with_setting(
            c,
            "rs485-module.protocol.polling_interval"@,
            value,
        ).bacnet.polling_interval == decimal_text_value(value@),
        parse_unsigned(value@, 0xFFFF_FFFF_FFFF_FFFF) is None ==> with_setting(
            c,
            "rs485-module.protocol.polling_interval"@,
            value,
        ).bacnet.polling_interval == 5,
        is_decimal_text(value@) && decimal_text_value(value@) <= 0xFFFF_FFFF ==> with_setting(
            c,
            "rs485-module.protocol.object_instance"@,
            value,
        ).bacnet.object_instance == decimal_text_value(value@),
        parse_unsigned(value@, 0xFFFF_FFFF) is None ==> with_setting(
            c,
            "rs485-module.protocol.object_instance"@,
            value,
        ).bacnet.object_instance == 0,
{
    lemma_parse_decimal_text(value@, 0xFFFF, 0);
    lemma_parse_decimal_text(value@, 0xFF, 0);
    lemma_parse_decimal_text(value@, 0xFFFF_FFFF, 0);
    lemma_parse_decimal_text(value@, 0xFFFF_FFFF_FFFF_FFFF, 0);
    reveal_strlit("rs485-module.mqtt.host");
    reveal_strlit("rs485-module.mqtt.port");
    reveal_strlit("rs485-module.mqtt.uplink_topic");
    reveal_strlit("rs485-module.mqtt.downlink_topic");
    reveal_strlit("rs485-module.mqtt.username");
    reveal_strlit("rs485-module.mqtt.password");
    reveal_strlit("rs485-module.serial.device");
    reveal_strlit("rs485-module.serial.baudrate");
    reveal_strlit("rs485-module.protocol.type");
    reveal_strlit("rs485-module.protocol.device_mac");
    reveal_strlit("rs485-module.protocol.bacnet_work_mode");
    reveal_strlit("rs485-module.protocol.polling_interval");
    reveal_strlit("rs485-module.protocol.object_type");
    reveal_strlit("rs485-module.protocol.object_instance");
    assert("rs485-module.mqtt.port"@[18] != "rs485-module.mqtt.host"@[18]);
    assert("rs485-module.serial.baudrate"@.len() != "rs485-module.mqtt.host"@.len());
    assert("rs485-module.serial.baudrate"@.len() != "rs485-module.mqtt.port"@.len());
    assert("rs485-module.serial.baudrate"@.len() != "rs485-module.mqtt.uplink_topic"@.len());
    assert("rs485-module.serial.baudrate"@.len() != "rs485-module.mqtt.downlink_topic"@.len());
    assert("rs485-module.serial.baudrate"@.len() != "rs485-module.mqtt.username"@.len());
    assert("rs485-module.serial.baudrate"@.len() != "rs485-module.mqtt.password"@.len());
    assert("rs485-module.serial.baudrate"@.len() != "rs485-module.serial.device"@.len());
    assert("rs485-module.protocol.device_mac"@.len() != "rs485-module.mqtt.host"@.len());
    assert("rs485-module.protocol.device_mac"@.len() != "rs485-module.mqtt.port"@.len());
    assert("rs485-module.protocol.device_mac"@.len() != "rs485-module.mqtt.uplink_topic"@.len());
    assert("rs485-module.protocol.device_mac"@[13] != "rs485-module.mqtt.downlink_topic"@[13]);
    assert("rs485-module.protocol.device_mac"@.len() != "rs485-module.mqtt.username"@.len());
    assert("rs485-module.protocol.device_mac"@.len() != "rs485-module.mqtt.password"@.len());
    assert("rs485-module.protocol.device_mac"@.len() != "rs485-module.serial.device"@.len());
    assert("rs485-module.protocol.device_mac"@.len() != "rs485-module.serial.baudrate"@.len());
    assert("rs485-module.protocol.device_mac"@.len() != "rs485-module.protocol.type"@.len());
    assert("rs485-module.protocol.polling_interval"@.len() != "rs485-module.mqtt.host"@.len());
    assert("rs485-module.protocol.polling_interval"@.len() != "rs485-module.mqtt.port"@.len());
    assert("rs485-module.protocol.polling_interval"@.len() != "rs485-module.mqtt.uplink_topic"@.len());
    assert("rs485-module.protocol.polling_interval"@.len() != "rs485-module.mqtt.downlink_topic"@.len());
    assert("rs485-module.protocol.polling_interval"@.len() != "rs485-module.mqtt.username"@.len());
    assert("rs485-module.protocol.polling_interval"@.len() != "rs485-module.mqtt.password"@.len());
    assert("rs485-module.protocol.polling_interval"@.len() != "rs485-module.serial.device"@.len());
    assert("rs485-module.protocol.polling_interval"@.len() != "rs485-module.serial.baudrate"@.len());
    assert("rs485-module.protocol.polling_interval"@.len() != "rs485-module.protocol.type"@.len());
    assert("rs485-module.protocol.polling_interval"@.len() != "rs485-module.protocol.device_mac"@.len());
    assert("rs485-module.protocol.polling_interval"@[22] != "rs485-module.protocol.bacnet_work_mode"@[22]);
    assert("rs485-module.protocol.object_instance"@.len() != "rs485-module.mqtt.host"@.len());
    assert("rs485-module.protocol.object_instance"@.len() != "rs485-module.mqtt.port"@.len());
    assert("rs485-module.protocol.object_instance"@.len() != "rs485-module.mqtt.uplink_topic"@.len());
    assert("rs485-module.protocol.object_instance"@.len() != "rs485-module.mqtt.downlink_topic"@.len());
    assert("rs485-module.protocol.object_instance"@.len() != "rs485-module.mqtt.username"@.len());
    assert("rs485-module.protocol.object_instance"@.len() != "rs485-module.mqtt.password"@.len());
    assert("rs485-module.protocol.object_instance"@.len() != "rs485-module.serial.device"@.len());
    assert("rs485-module.protocol.object_instance"@.len() != "rs485-module.serial.baudrate"@.len());
    assert("rs485-module.protocol.object_instance"@.len() != "rs485-module.protocol.type"@.len());
    assert("rs485-module.protocol.object_instance"@.len() != "rs485-module.protocol.device_mac"@.len());
    assert("rs485-module.protocol.object_instance"@.len() != "rs485-module.protocol.bacnet_work_mode"@.len());
    assert("rs485-module.protocol.object_instance"@.len() != "rs485-module.protocol.polling_interval"@.len());
    assert("rs485-module.protocol.object_instance"@.len() != "rs485-module.protocol.object_type"@.len());
}

/// A parsed number, or a default.
fn number_or_default(s: &str, max: u64, default: u64) -> (r: u64)
    requires
        default <= max,
    ensures
        r == number_or(s@, max as nat, default as nat),
        r <= max,
{
    match parse_unsigned_str(s, max) {
        Some(v) => v,
        None => default,
    }
}

/// Applies the entry `key` of the settings, found with the text `value`.
/// Text entries take the text; number entries take the number it spells,
/// or their default when it spells none in range; the protocol type
/// enables BACnet exactly when it is `bacnet-mstp`. Other keys change
/// nothing.
pub fn apply_setting(config: &mut Config, key: &str, value: String)
    ensures
        *final(config) == with_setting(*old(config), key@, value),
{
    if str_equal(key, "rs485-module.mqtt.host") {
        config.mqtt.host = value;
    } else if str_equal(key, "rs485-module.mqtt.port") {
        config.mqtt.port = number_or_default(value.as_str(), 0xFFFF, 1883) as u16;
    } else if str_equal(key, "rs485-module.mqtt.uplink_topic") {
        config.mqtt.uplink_topic = value;
    } else if str_equal(key, "rs485-module.mqtt.downlink_topic") {
        config.mqtt.downlink_topic = value;
    } else if str_equal(key, "rs485-module.mqtt.username") {
        config.mqtt.username = Some(value);
    } else if str_equal(key, "rs485-module.mqtt.password") {
        config.mqtt.password = Some(value);
    } else if str_equal(key, "rs485-module.serial.device") {
        config.serial.device = value;
    } else if str_equal(key, "rs485-module.serial.baudrate") {
        config.serial.baud_rate = number_or_default(value.as_str(), 0xFFFF_FFFF, 9600) as u32;
    } else if str_equal(key, "rs485-module.protocol.type") {
        config.bacnet.enabled = str_equal(value.as_str(), "bacnet-mstp");
    } else if str_equal(key, "rs485-module.protocol.device_mac") {
        config.bacnet.device_mac = number_or_default(value.as_str(), 0xFF, 1) as u8;
    } else if str_equal(key, "rs485-module.protocol.bacnet_work_mode") {
        config.bacnet.work_mode = value;
    } else if str_equal(key, "rs485-module.protocol.polling_interval") {
        config.bacnet.polling_interval = number_or_default(
            value.as_str(),
            0xFFFF_FFFF_FFFF_FFFF,
            5,
        );
    } else if str_equal(key, "rs485-module.protocol.object_type") {
        config.bacnet.object_type = value;
    } else if str_equal(key, "rs485-module.protocol.object_instance") {
        config.bacnet.object_instance = number_or_default(value.as_str(), 0xFFFF_FFFF, 0) as u32;
    } else if str_equal(key, "rs485-module.protocol.property_identifier") {
        config.bacnet.property_identifier = value;
    }
}

/// The settings entries that the bridge reads, in the order it reads them.
pub open spec fn setting_key_list() -> Seq<Seq<char>> {
    seq![
        "rs485-module.mqtt.host"@,
        "rs485-module.mqtt.port"@,
        "rs485-module.mqtt.uplink_topic"@,
        "rs485-module.mqtt.downlink_topic"@,
        "rs485-module.mqtt.username"@,
        "rs485-module.mqtt.password"@,
        "rs485-module.serial.device"@,
        "rs485-module.serial.baudrate"@,
        "rs485-module.protocol.type"@,
        "rs485-module.protocol.device_mac"@,
        "rs485-module.protocol.bacnet_work_mode"@,
        "rs485-module.protocol.polling_interval"@,
        "rs485-module.protocol.object_type"@,
        "rs485-module.protocol.object_instance"@,
        "rs485-module.protocol.property_identifier"@,
    ]
}

/// The settings entries that the bridge reads, in the order it reads them.
pub fn setting_keys() -> (r: Vec<&'static str>)
    ensures
        r@.len() == setting_key_list().len(),
        forall|i: int| 0 <= i < r@.len() ==> #[trigger] r@[i]@ == setting_key_list()[i],
{
    let mut keys: Vec<&'static str> = Vec::new();
    keys.push("rs485-module.mqtt.host");
    keys.push("rs485-module.mqtt.port");
    keys.push("rs485-module.mqtt.uplink_topic");
    keys.push("rs485-module.mqtt.downlink_topic");
    keys.push("rs485-module.mqtt.username");
    keys.push("rs485-module.mqtt.password");
    keys.push("rs485-module.serial.device");
    keys.push("rs485-module.serial.baudrate");
    keys.push("rs485-module.protocol.type");
    keys.push("rs485-module.protocol.device_mac");
    keys.push("rs485-module.protocol.bacnet_work_mode");
    keys.push("rs485-module.protocol.polling_interval");
    keys.push("rs485-module.protocol.object_type");
    keys.push("rs485-module.protocol.object_instance");
    keys.push("rs485-module.protocol.property_identifier");
    keys
}

/// The settings after the entries were applied in order.
pub open spec fn with_settings(c: Config, entries: Seq<(Seq<char>, String)>) -> Config
    decreases entries.len(),
{
    if entries.len() == 0 {
        c
    } else {
        with_setting(with_settings(c, entries.drop_last()), entries.last().0, entries.last().1)
    }
}

/// The entries as key text and value.
pub open spec fn entries_view(entries: Seq<(&'static str, String)>) -> Seq<(Seq<char>, String)> {
    entries.map_values(|e: (&'static str, String)| (e.0@, e.1))
}

/// Applies the settings entries that were found, in order.
pub fn apply_settings(config: &mut Config, entries: &Vec<(&'static str, String)>)
    ensures
        *final(config) == with_settings(*old(config), entries_view(entries@)),
{
    let ghost start = *config;
    let n = entries.len();
    for i in 0..n
        invariant
            n == entries@.len(),
            *config == with_settings(start, entries_view(entries@).take(i as int)),
    {
        let key = entries[i].0;
        let value = entries[i].1.clone();
        assert(entries_view(entries@).take(i + 1).drop_last() =~= entries_view(entries@).take(
            i as int,
        ));
        apply_setting(config, key, value);
    }
    assert(entries_view(entries@).take(n as int) =~= entries_view(entries@));
}

/// The parity that a parity setting names; anything else means none.
pub open spec fn parity_of(s: Seq<char>) -> SerialParity {
    if s == "none"@ {
        SerialParity::NoParity
    } else if s == "even"@ {
        SerialParity::Even
    } else if s == "odd"@ {
        SerialParity::Odd
    } else {
        SerialParity::NoParity
    }
}

impl SerialConfig {
    /// The parity this configuration asks for.
    pub fn parity_setting(&self) -> (r: SerialParity)
        ensures
            r == parity_of(self.parity@),
    {
        let p = self.parity.as_str();
        if str_equal(p, "none") {
            SerialParity::NoParity
        } else if str_equal(p, "even") {
            SerialParity::Even
        } else if str_equal(p, "odd") {
            SerialParity::Odd
        } else {
            SerialParity::NoParity
        }
    }
}

impl Config {
    /// The bridge runs only when both the serial port and BACnet are enabled.
    pub fn bridge_enabled(&self) -> (r: bool)
        ensures
            r == (self.serial.enabled && self.bacnet.enabled),
    {
        self.serial.enabled && self.bacnet.enabled
    }
}

impl BacnetConfig {
    /// Whether the bridge reads the configured property on every cycle.
    pub fn polls(&self) -> (r: bool)
        ensures
            r == (self.work_mode@ == "poll"@),
    {
        str_equal(self.work_mode.as_str(), "poll")
    }
}

} // verus!
