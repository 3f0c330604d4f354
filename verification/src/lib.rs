//! Verified core of a TCP file-transfer tool: the command line, the
//! line-framed header exchange, the decimal header fields and the chunked
//! layout of the file data on the wire.

pub mod decimal;
pub mod framing;
pub mod chunks;
pub mod text;
pub mod args;
pub mod paths;
pub mod session;
pub mod connection;
