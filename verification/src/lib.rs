//! A CubeSat Space Protocol (CSP) node: packet identifiers and their wire
//! header, packets, the global packet queue, interfaces, ports, sockets,
//! connections and the router that moves packets between them.

pub mod id;
pub mod types;
pub mod utils;
pub mod fifo;
pub mod qfifo;
pub mod connection;
pub mod port;
pub mod interfaces;
pub mod config;
pub mod router;
pub mod node;
