//! Verified core of the Cegel print bridge: configuration model, request
//! validation, transport planning, ESC/POS ticket generation and the pairing
//! state machine. Network, USB, serial and file I/O live in the application
//! crate, which hands this library plain values and performs the actions it
//! decides on.

pub mod text;
pub mod types;
pub mod config;
pub mod ticket;
pub mod adapters;
pub mod usb_scan;
pub mod win_usb;
pub mod server;
pub mod pairing;
pub mod commands;
