//! A PostgreSQL v3 wire-protocol frontend: message framing, the row writer
//! and type adapter, the engine interface and the per-connection state
//! machine, each with a machine-checked contract.

pub mod backend;
pub mod client_wire;
pub mod codec;
pub mod connection;
pub mod datetime;
pub mod duck;
pub mod engine;
pub mod fidelity;
pub mod frontend;
pub mod names;
pub mod protocol;
pub mod protocol_ext;
pub mod round_trip;
pub mod session;
pub mod session_laws;
pub mod table;
pub mod text;
pub mod wire;
