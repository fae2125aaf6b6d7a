//! The flow engine of a TUN-to-TLS tunnel client: the wire format spoken to
//! the relay, the workers of the TCP and UDP flows, the flow table, the pool
//! of tunnel connections and the bypass profiler, each with its contract.
//!
//! The library does no I/O. Its caller owns the sockets and the clock, tells
//! the library what happened, and carries out what the library answers.

pub mod addr;
pub mod bridge;
pub mod buffer;
pub mod config;
pub mod flows;
pub mod packet;
pub mod pool;
pub mod probe;
pub mod profiler;
pub mod proto;
pub mod roundtrip;
pub mod tcp;
pub mod types;
pub mod udp;
