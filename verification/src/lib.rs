//! A minimal network file-transfer service library.
//!
//! The wire codec ([`dtp`]) turns protocol messages into bytes and back,
//! the framer ([`framing`]) delimits messages on a raw byte stream, and the
//! session state machine ([`session`]) drives the multi-step exchange for
//! download, upload, list and remove requests. All I/O is left to the caller:
//! the session machine hands out actions and consumes events, so every
//! decision the server takes is verified here.

pub mod config;
pub mod dtp;
pub mod framing;
pub mod session;
