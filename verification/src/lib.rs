//! Android TV Voice over BLE (ATVV): the wire protocol, the audio codec and the
//! decisions of a daemon that turns a voice remote into a microphone.
//!
//! Everything here computes on plain values. Bluetooth, D-Bus, PipeWire and the
//! clock are on the caller's side: the caller hands in what arrived and performs
//! the actions it gets back.
//!
//! - `protocol`: commands, notifications and capabilities, in versions 0.4 and 1.0
//! - `adpcm`: decoding and clean-up of audio frames
//! - `atvv`: the session with a remote, as a state machine
//! - `ble`: which devices, services and characteristics are the right ones
//! - `daemon`: the way from discovery to a session, and back after a disconnect
//! - `naming`: the names that an instance goes by
//! - `pw`: the queue of samples for the virtual microphone
//! - `dbus`, `consumer`: what the control interface shows and what listeners tell
//! - `text`, `wire`: strings and numbers in terms of their characters and bytes

pub mod adpcm;
pub mod atvv;
pub mod ble;
pub mod consumer;
pub mod daemon;
pub mod dbus;
pub mod naming;
pub mod protocol;
pub mod pw;
pub mod text;
pub mod wire;
