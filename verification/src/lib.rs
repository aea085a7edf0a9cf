//! Host-side core of a flashing tool for an Amlogic based device that is
//! reached over USB while it runs its recovery firmware.
//!
//! The crate holds everything that can be decided without touching the bus:
//! how each command is framed, how replies are read, the chain-load
//! handshake, the streaming writers and the interpreter of a flash program.
//! Whoever owns the USB handle performs the transfers that these functions
//! describe and hands the outcomes back.

pub mod aml;
pub mod amlc;
pub mod boot;
pub mod checksum;
pub mod chunks;
pub mod config;
pub mod decode;
pub mod device;
pub mod encode;
pub mod error;
pub mod flash;
pub mod json;
pub mod partitions;
pub mod schema;
pub mod serialize;
pub mod stream;
pub mod text;
pub mod usb;
