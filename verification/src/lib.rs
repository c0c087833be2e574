//! Wire formats and client-side bookkeeping for a file block transfer RPC.
//!
//! Every frame on the wire starts with a fixed 17-byte header (sequence
//! number, operation code, body length, integers in big-endian order),
//! followed by a body whose layout depends on the operation.

pub mod codec;
pub mod error;
pub mod packet;
pub mod message;
pub mod client;
pub mod server;
