use vstd::prelude::*;

verus! {

/// What a session between two nodes is used for.
#[derive(Debug, Clone, Copy, PartialEq, Eq, Structural)]
pub enum SessionType {
    NodeFinder,
    FileExchanger,
}

/// Which side opened a session: this node dialed (`Connected`) or the other
/// node dialed and this node accepted (`Accepted`).
#[derive(Debug, Clone, Copy, PartialEq, Eq, Structural)]
pub enum SessionHandshakeType {
    Connected,
    Accepted,
}

/// The handshake type under which the other end of a session sees it.
pub open spec fn opposite(t: SessionHandshakeType) -> SessionHandshakeType {
    match t {
        SessionHandshakeType::Connected => SessionHandshakeType::Accepted,
        SessionHandshakeType::Accepted => SessionHandshakeType::Connected,
    }
}

} // verus!
