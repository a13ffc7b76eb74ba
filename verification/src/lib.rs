//! A tick-based state synchronisation server, written without I/O of its own.
//!
//! The library holds the rules of the protocol: how a received buffer is cut
//! down to its payload, how sessions are admitted and numbered, how a session's
//! cached state is replaced by a peer's reply, and in which order a round asks
//! every session for its state and then delivers one snapshot to all of them.
//! Each session keeps its peer's socket, of whatever type the driver uses, but
//! only the driver reads and writes it: the driver performs each
//! [`server::Action`] that the server asks for and hands the outcome back as
//! a [`server::Event`]. Encoding states as text is the driver's part as well.
//!
//! Real-valued quantities (health, coordinates) are carried as IEEE 754
//! binary64 bit patterns in `u64` fields, so that every value of the library
//! is an integer that contracts can speak of exactly.

pub mod acceptor;
pub mod config;
pub mod error;
pub mod frame;
pub mod peer;
pub mod player;
pub mod server;
pub mod state;
