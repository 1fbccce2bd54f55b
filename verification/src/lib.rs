//! Decision logic of a transparent forward proxy.
//!
//! The proxy reads the plaintext preamble of a client connection, finds the
//! `Host` field in it, resolves that host, opens an encrypted connection to
//! port 443 of the destination and relays bytes in both directions. This
//! crate holds everything that is decided along the way; sockets, name
//! lookups and handshakes are performed by whoever drives a [`Connection`].

pub mod bytes;
pub mod connection;
pub mod error;
pub mod host;
pub mod laws;
pub mod peers;
pub mod resolve;
pub mod scanner;
pub mod text;

pub use connection::{Action, Connection, Event, Phase};
pub use error::{Error, ErrorKind, Result};
pub use resolve::{Address, Target};
pub use scanner::HeaderScanner;
