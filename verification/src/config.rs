//! What the service is started with: where it listens, how it secures its
//! connections, and where its database is. The values arrive already
//! checked; nothing here interprets them.

use std::path::PathBuf;
use vstd::prelude::*;

verus! {

/// `std::path::PathBuf`, carried through unread.
#[verifier::external_type_specification]
#[verifier::external_body]
pub struct ExPathBuf(PathBuf);

/// An IPv4 address and a port.
pub struct BindAddrV4 {
    /// The four bytes of the address.
    pub ip: [u8; 4],
    /// The port.
    pub port: u16,
}

/// An IPv6 address and a port, with the flow label and the scope.
pub struct BindAddrV6 {
    /// The sixteen bytes of the address.
    pub ip: [u8; 16],
    /// The port.
    pub port: u16,
    /// The flow label.
    pub flowinfo: u32,
    /// The scope.
    pub scope_id: u32,
}

/// The address and port that a server listens on.
pub enum BindAddr {
    V4(BindAddrV4),
    V6(BindAddrV6),
}

/// The identity that the server shows to its clients.
pub struct TlsIdentity {
    /// The certificate, with its key.
    pub server_cert: PathBuf,
}

/// The RPC server.
pub struct LuminaServer {
    /// Where it listens.
    pub bind_addr: BindAddr,
    /// Whether connections are wrapped in TLS.
    pub use_tls: Option<bool>,
    /// The identity to use when they are.
    pub tls: Option<TlsIdentity>,
}

/// The web server beside the RPC server.
pub struct WebServer {
    /// Whether it runs at all.
    pub enabled: bool,
    /// Where it listens.
    pub bind_addr: BindAddr,
    /// The key that signs its sessions.
    pub secret_key: String,
    /// The OAuth client that it presents to Google.
    pub google_api_client_id: String,
    /// The secret of that client.
    pub google_api_secret: String,
}

/// The database.
pub struct Database {
    /// How to reach it.
    pub connection_info: String,
    /// Whether the connection is wrapped in TLS.
    pub use_tls: bool,
    /// The authority that vouches for the database server.
    pub server_ca: Option<PathBuf>,
    /// The identity that this service shows to the database.
    pub client_id: Option<PathBuf>,
}

/// Everything the service is started with.
pub struct Config {
    /// The RPC server.
    pub lumina: LuminaServer,
    /// The web server, where there is one.
    pub api_server: Option<WebServer>,
    /// The database.
    pub database: Database,
}

} // verus!
