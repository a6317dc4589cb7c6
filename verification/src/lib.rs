//! Decoder for the Teltonika Codec 8 telemetry protocol.
//!
//! A tracking device first identifies itself with an IMEI handshake and then
//! sends frames, each carrying one or more AVL records (a timestamp, a GPS fix
//! and tagged I/O values) followed by a record-count echo and a CRC-16/ARC
//! checksum. Every decoder here is a total function of the bytes it is given:
//! its contract names, for each input, the value it returns or the error it
//! stops with.

pub mod error;
pub mod cursor;
pub mod protocol;
pub mod checksum;
pub mod parser;
pub mod imei;
pub mod laws;

pub use crate::cursor::ByteCursor;
pub use crate::error::CustomError;
pub use crate::protocol::{AVLData, GPSElement, Integrity, IoElement, IoElementValue, TeltonikaCodec8};
