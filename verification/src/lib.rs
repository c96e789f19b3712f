//! Framed message protocol of a metadata-sharing RPC service: the typed
//! messages, their binary encoding, and the length-prefixed packets that
//! carry them over a byte stream.

pub mod config;
pub mod rpc;
