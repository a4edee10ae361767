//! Socket-layer core of a small TCP/IP stack: a fixed-capacity circular byte
//! buffer for connection data, and a fixed-capacity accept queue for incoming
//! TCP connection attempts, with the segment-header validation that feeds it.

pub mod error;
pub mod listen;
pub mod ring;
pub mod wire;
