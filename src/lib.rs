//! Bridges a publish/subscribe bus to a line-protocol time-series sink:
//! payload classification, value extraction, line encoding and the
//! batching/backoff state machine that drives delivery.

pub mod text;
pub mod coerce;
pub mod payload;
pub mod message;
pub mod linebuffer;
pub mod influxdb;
pub mod mqtt;
pub mod exit_handler;
