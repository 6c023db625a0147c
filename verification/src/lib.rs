//! Client-side core of the adb host protocol.
//!
//! The crate covers the wire-level logic of one exchange with the local adb
//! daemon: framing an outgoing command behind a four-digit hex length prefix,
//! decoding the staged response (status banner, optional error payload,
//! optional output with an embedded continuation banner or failure, optional
//! secondary length prefix), and parsing the daemon's device-listing text into
//! structured records.  Opening sockets and moving bytes is left to callers;
//! every function here is pure and carries a contract.

pub mod adb;
pub mod device;
pub mod device_info;
pub mod response;
pub mod server;
pub mod text;
pub mod wire;
