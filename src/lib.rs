//! A small file-transfer protocol over a byte stream: the wire framing of a
//! request and of a response, the check that keeps a requested path inside
//! the served root, and the client-side reading of a response with its
//! byte-count verification.
use vstd::prelude::*;

pub mod error;
pub mod client;
pub mod containment;
pub mod receiver;
pub mod server;
pub mod wire;
