//! Why the content store's socket could not be reached.

use vstd::prelude::*;

verus! {

/// A failure to connect to a Unix socket.
#[derive(Debug)]
pub enum SocketAccessError {
    /// The socket file does not exist.
    NotFound,
    /// The user may not connect to it.
    PermissionDenied,
    /// Another connection error, with its description.
    ConnectionError(String),
}

impl SocketAccessError {
    /// A human-readable description.
    pub fn message(&self) -> (r: String)
        ensures
            self is NotFound ==> r@ == "Socket file not found"@,
            self is PermissionDenied ==> r@ == "Permission denied"@,
            self is ConnectionError ==> r@ == "Connection error: "@ + self->ConnectionError_0@,
    {
        match self {
            SocketAccessError::NotFound => String::from_str("Socket file not found"),
            SocketAccessError::PermissionDenied => String::from_str("Permission denied"),
            SocketAccessError::ConnectionError(e) => crate::text::concat_str("Connection error: ", e.as_str()),
        }
    }
}

} // verus!
