//! The engine of a proxy that tunnels TCP and UDP through TUIC, a protocol
//! on top of QUIC.
//!
//! The crate holds what the proxy computes and decides, and proves it:
//!
//! - [`proto`]: the wire format (header, commands, addresses), whole
//!   messages, the fragmentation of UDP packets and their reassembly, and the
//!   UDP associations of a connection;
//! - [`inbound`] and [`outbound`]: what a server and a client make of each
//!   stream and datagram, who is let in, and when a connection is given up;
//! - [`io`] and [`udp`]: the relay of byte streams and the packets of local
//!   sockets;
//! - [`socks`], [`address_text`], [`cli`], [`conf`], [`log`]: what the
//!   surrounding program reads from SOCKS5 clients, from text, and from its
//!   command line and configuration.
//!
//! Nothing here reads a socket or a clock.  Callers hand in bytes and times
//! and carry out what comes back.  Calls into other crates are kept in small
//! functions of [`buf`] and [`text`], whose contracts are taken on trust.

pub mod address_text;
pub mod buf;
pub mod cli;
pub mod conf;
pub mod inbound;
pub mod io;
pub mod log;
pub mod outbound;
pub mod proto;
pub mod socks;
pub mod text;
pub mod types;
pub mod udp;
