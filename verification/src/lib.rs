//! Moisture readings, a small display and bounded pump pulses for the Grow HAT Mini.
//!
//! Everything here is a computation on plain values: configuration rules, pulse
//! accounting, reading freshness, screen rendering, MQTT payloads and the pump ledger.
//! Devices, sockets, files and clocks belong to the program around the library, which
//! hands observations in and carries the returned decisions out.
pub mod batch;
pub mod board;
pub mod button;
pub mod canvas;
pub mod config;
pub mod discovery;
pub mod display;
pub mod glyph;
pub mod hardware;
pub mod json;
pub mod measurement;
pub mod message;
pub mod panel;
pub mod path;
pub mod pulse;
pub mod pump;
pub mod pwm;
pub mod request;
pub mod screen;
pub mod sensor;
pub mod session;
pub mod text;
pub mod topic;
