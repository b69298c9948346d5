//! Protocol core of a driver for serial-attached LoRa modems that speak a
//! line-oriented text protocol: the hex codec of payloads, the decoder of
//! received-packet lines, the catalog of channels and modem presets, the
//! status record and the device interface.

pub mod catalog;
pub mod device;
pub mod error;
pub mod hex;
pub mod packet;
pub mod status;
pub mod text;

pub use catalog::{LoRaChannels, ModemConfig};
pub use device::{packet_from_answer, LoraModemDevice};
pub use error::ModemError;
pub use hex::{hexify, unhexify};
pub use packet::RxPacket;
pub use status::Status;
