//! Sockets: the addresses they are bound to and how they fail.
use crate::crypt::Fingerprint;
use crate::packet::Dock;
use vstd::prelude::*;
use vstd::string::*;

pub mod haven_socket;

verus! {

/// The address of a socket: an identity and a dock on it.
#[derive(Clone, Copy, Debug, PartialEq, Eq, Hash)]
pub struct Endpoint {
    pub fingerprint: Fingerprint,
    pub dock: Dock,
}

impl Endpoint {
    /// The endpoint at `dock` on the identity `fingerprint`.
    pub fn new(fingerprint: Fingerprint, dock: Dock) -> (r: Endpoint)
        ensures
            r.fingerprint == fingerprint,
            r.dock == dock,
    {
        Endpoint { fingerprint, dock }
    }

    /// Whether both endpoints name the same dock on the same identity.
    pub fn same(&self, other: &Endpoint) -> (r: bool)
        ensures
            r == (*self == *other),
    {
        self.fingerprint.same(&other.fingerprint) && self.dock == other.dock
    }
}

/// Why a datagram could not be sent.
#[derive(Clone, Debug, PartialEq, Eq)]
pub enum SocketSendError {
    /// No route to the destination is known.
    NoRoute,
    /// The destination is anonymous and no reply block is left for it.
    NoReplyBlock,
    /// The encrypted session with the destination failed.
    HavenEncryptionError(String),
}

/// Why nothing could be received.
#[derive(Clone, Copy, Debug, PartialEq, Eq)]
pub enum SocketRecvError {
    /// The socket is closed.
    Closed,
}

/// The description of a send error for people.
pub open spec fn send_error_text(e: SocketSendError) -> Seq<char> {
    match e {
        SocketSendError::NoRoute => "no route to the destination"@,
        SocketSendError::NoReplyBlock => "no reply block for the destination"@,
        SocketSendError::HavenEncryptionError(reason) => "haven encryption problem: "@ + reason@,
    }
}

/// The description of a receive error for people.
pub open spec fn recv_error_text(e: SocketRecvError) -> Seq<char> {
    match e {
        SocketRecvError::Closed => "the socket is closed"@,
    }
}

impl SocketSendError {
    /// A description of the error for people.
    pub fn message(&self) -> (r: String)
        ensures
            r@ == send_error_text(*self),
    {
        match self {
            SocketSendError::NoRoute => String::from_str("no route to the destination"),
            SocketSendError::NoReplyBlock => String::from_str(
                "no reply block for the destination",
            ),
            SocketSendError::HavenEncryptionError(reason) => {
                let mut r = String::from_str("haven encryption problem: ");
                r.append(reason.as_str());
                r
            },
        }
    }
}

impl SocketRecvError {
    /// A description of the error for people.
    pub fn message(&self) -> (r: String)
        ensures
            r@ == recv_error_text(*self),
    {
        match self {
            SocketRecvError::Closed => String::from_str("the socket is closed"),
        }
    }
}

} // verus!
