//! A verified Modbus RTU slave-side protocol core: a frame codec
//! (CRC-16/Modbus framing, request parsing, response encoding) and a
//! request dispatcher that turns raw frames into reply frames through a
//! user-supplied service. The serial transport that delimits frames and
//! carries bytes is outside this crate.

pub mod codec;
pub mod crc;
pub mod device;
pub mod dispatch;
pub mod types;
