//! Error kinds observable at the node's boundaries.

use vstd::prelude::*;

verus! {

/// Why a single connection is dropped.
#[derive(Clone, Copy, PartialEq, Eq, Structural, Debug)]
pub enum ConnError {
    /// The TLS handshake failed.
    TlsHandshake,
    /// The Trojan header was invalid or the stream ended inside it.
    Malformed,
    /// The credential is not in the user directory.
    Unauthorized,
    /// The request asked for a transport other than TCP CONNECT.
    Unsupported,
    /// The outbound dial or the copy failed.
    Upstream,
    /// The per-connection wall-clock budget ran out.
    Timeout,
}

/// Why a panel response could not be used.
#[derive(Clone, Copy, PartialEq, Eq, Structural, Debug)]
pub enum PanelError {
    /// The body was not JSON.
    BadJson,
    /// A required field was absent or had the wrong JSON type.
    MissingField,
    /// A numeric field did not fit its declared range.
    OutOfRange,
}

impl ConnError {
    /// A short name for logs.
    pub fn describe(&self) -> (r: &'static str)
    {
        match self {
            ConnError::TlsHandshake => "tls handshake failed",
            ConnError::Malformed => "malformed trojan header",
            ConnError::Unauthorized => "unknown credential",
            ConnError::Unsupported => "unsupported command",
            ConnError::Upstream => "upstream failure",
            ConnError::Timeout => "task timeout",
        }
    }
}

} // verus!
