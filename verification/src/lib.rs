//! An interactive remote-session I/O bridge.
//!
//! The crate owns at most one live bidirectional byte-stream session at a
//! time.  Callers enqueue outbound bytes and lifecycle commands into a
//! bounded write queue; a polling I/O loop drains that queue, flushes an
//! outbound buffer on a fixed cadence, polls the transport for inbound
//! bytes, and emits an ordered stream of events ending in exactly one
//! `Closed`.  An event bridge decodes inbound bytes to text, buffering
//! incomplete multi-byte tails, and retires the session registry entry when
//! the terminal event arrives.
pub mod bridge;
pub mod buffer;
pub mod errors;
pub mod ioloop;
pub mod mailbox;
pub mod proto;
pub mod registry;
pub mod textscan;
pub mod transport;
