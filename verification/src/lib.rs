//! Client-side protocol layer for a text-based UDP command and telemetry
//! interface of a small flying vehicle.
//!
//! The crate holds the parts of the protocol that can be stated exactly:
//! the wire text of every command, the decoding of a telemetry frame into
//! named fields, and the decisions of the liveness handshake. Sockets,
//! timers and the task runtime live outside of it and exchange plain values
//! with the functions here.

pub mod text;
pub mod decimal;
pub mod commands;
pub mod telemetry;
pub mod liveness;
