//! BACnet MS/TP framing and BACnet application-layer encoding, with
//! machine-checked contracts.
//!
//! * [`bytes`]: big-endian / little-endian byte layouts shared by the codecs.
//! * [`mstp`]: the MS/TP data-link layer: frames, CRC, the master station.
//! * [`bacnet`]: object identifiers, property names, APDU codec, discovery.
//! * [`text`]: the text operations that the codecs need from std.
//! * [`config`]: the bridge's settings, their defaults and overrides.
//! * [`bridge`]: the decisions of the RS-485 / MQTT bridge, free of I/O.

pub mod bytes;
pub mod mstp;
pub mod bacnet;
pub mod config;
pub mod bridge;
pub mod text;
