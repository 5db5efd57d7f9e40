//! Core of an unattended field-data collection gateway: per-device polling
//! over one serialized transport, line-protocol encoding of readings,
//! hysteresis-based bus-health accounting, cooperative cancellation and
//! shutdown, and the reconnect-forever lifecycle policy.
//!
//! Everything here is pure logic over plain values. The surrounding binary
//! owns the wire protocol, the HTTP sink, logging and the threads, and feeds
//! this library the values they produce.

pub mod device;
pub mod encode;
pub mod health;
pub mod cancel;
pub mod lifecycle;
pub mod poller;
pub mod registers;
pub mod shutdown;
