//! The failures that the session core distinguishes.

use vstd::prelude::*;

verus! {

/// What can go wrong in the registry, on a connection or at the directory.
#[derive(Clone, Copy, Debug, PartialEq, Eq, Structural)]
pub enum SessionError {
    /// A session with this connection id is already present.
    DuplicateConnection,
    /// No session with this connection id is present.
    UnknownConnection,
    /// The directory holds no advertisement with this id.
    UnknownServer,
    /// A frame from a connection could not be decoded.
    MalformedMessage,
    /// The transport under a connection is gone.
    TransportClosed,
}

impl SessionError {
    /// Whether the failure is held against one connection, which it then
    /// ends: all but the one that concerns the directory.
    pub open spec fn spec_ends_connection(self) -> bool {
        self != SessionError::UnknownServer
    }

    /// Whether the failure is held against one connection, which it then
    /// ends: all but the one that concerns the directory.
    #[verifier::when_used_as_spec(spec_ends_connection)]
    pub fn ends_connection(self) -> (b: bool)
        ensures
            b == self.spec_ends_connection(),
    {
        match self {
            SessionError::UnknownServer => false,
            _ => true,
        }
    }
}

} // verus!
