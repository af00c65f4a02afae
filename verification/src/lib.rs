//! Core logic of a keypad-driven media remote: a debounce filter for a 4x4
//! matrix keypad, the scan-decode rule for the key matrix, a JSON-RPC codec
//! for the player's dialect, and the client's command and recovery policy.
//!
//! Everything here is pure logic over plain values; the device I/O (GPIO
//! lines, the HTTP transport, the indicator LED) lives outside and hands
//! readings in and takes request bodies out.

pub mod client;
pub mod debounce;
pub mod dispatch;
pub mod envelope;
pub mod json;
pub mod keypad;
pub mod rpc;
