//! Host side of the fastboot device-bootloader protocol.
//!
//! The protocol is a synchronous command/reply exchange carried over a bulk
//! byte channel, usually USB. This crate verifies the protocol core: command
//! encoding, reply framing and interpretation, the two-phase download
//! handshake, and the configuration rules of the USB transport (packet-size
//! selection and bulk-endpoint resolution). The raw USB stack itself stays
//! outside the library, behind the [`fastboot::Transport`] trait; any type
//! that implements it gains the protocol operations of
//! [`fastboot::Fastboot`].

pub mod fastboot;
pub mod hex;
pub mod reply;
pub mod transport;
pub mod usb;

pub use crate::fastboot::{Fastboot, Transport};
