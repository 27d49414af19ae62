use vstd::prelude::*;

verus! {

/// Where the client stands in its handshake with the server.
#[derive(PartialEq, Eq, Structural, Clone, Copy, Debug)]
pub enum ConnectionState {
    /// The client asks for a challenge and waits for the server's digest.
    AwaitingChallengeResponse,
    /// The client has the digest, asks to connect, and waits to be accepted.
    AwaitingConnectResponse,
    /// The server has accepted the connection.
    Connected,
}

} // verus!
