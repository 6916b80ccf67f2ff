//! Reliable block-transfer engines for firmware rescue tooling.
//!
//! Two engines move a firmware image across an unreliable, half-duplex link:
//! an XMODEM-CRC engine that frames a byte stream into checksummed blocks
//! over a character-oriented transport, and a DFU-style engine that chunks a
//! byte stream into control transfers and drives a polling state machine.
//! Both must reproduce exact wire framing, checksum computation, bounded
//! retry and cancellation semantics of a fixed on-device peer.

pub mod crc;
pub mod dfu;
pub mod manifest;
pub mod modes;
pub mod orchestrator;
pub mod rom_error;
pub mod roundtrip;
pub mod spidfu;
pub mod transport;
pub mod usbdfu;
pub mod xmodem;
