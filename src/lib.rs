//! Session bookkeeping and host discovery for a device configurator.
//!
//! The library holds the decisions: which error an operation reports, how a
//! bounded wait for a connection slot proceeds, what a slot holds after each
//! operation, and which discovered hosts are reported. The surrounding
//! program performs the serial, socket and probe I/O and hands the outcomes
//! in as plain values.
pub mod address;
pub mod discovery;
pub mod error;
pub mod lock;
pub mod session;
pub mod slot;
