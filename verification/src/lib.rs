//! Bridges physical cockpit controls (rotary encoders, push buttons, toggle
//! switches) to a flight simulator's UDP wire protocol, and relays simulator
//! telemetry back to a dashboard.
//!
//! This crate holds the two subsystems that carry the engineering risk, both
//! verified: the hardware input event-detection engine (debouncing, quadrature
//! decoding, deferred switch resolution) and the simulator wire-protocol codec
//! with its dataref snapshot. The surrounding I/O (sockets, GPIO lines, the
//! web dashboard) lives outside this crate and hands in plain values.

pub mod codec;
pub mod dataref_table;
pub mod event_detect;
pub mod gpio_types;
pub mod xpc_types;
