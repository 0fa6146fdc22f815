//! Core logic of a room-climate monitor: decoding wireless sensor
//! notifications, aggregating readings into a registry of rooms with
//! liveness tracking and bounded history, planning periodic heating-actuator
//! commands, and converting room state to and from its persisted form.
//!
//! Everything here is pure computation over plain values; radio, network and
//! file I/O live in the surrounding application.

pub mod codec;
pub mod discovery;
pub mod dispatch;
pub mod persist;
pub mod registry;
pub mod rooms;
