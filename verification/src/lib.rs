//! Core of an MQTT-style broker front end: binary packet decoding, the
//! per-connection session state machine, the bounded connection registry,
//! and a fixed-capacity circular buffer.
pub mod mqtt_handler;
pub mod parser;
pub mod protocol;
pub mod ring_buffer;
pub mod session;
pub mod session_state;
