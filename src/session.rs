use vstd::prelude::*;

verus! {

/// The transport a connection arrived over.
#[derive(Clone, Copy, Debug, PartialEq, Eq, Structural)]
pub enum Protocol {
    Tcp,
    Quic,
    Http,
    WebSocket,
}

/// The host part of a peer address, as the bits of the IP address.
#[derive(Clone, Copy, Debug, PartialEq, Eq, Structural)]
pub enum IpAddress {
    V4(u32),
    V6(u128),
}

/// A resolved peer network address: host and port.
#[derive(Clone, Copy, Debug, PartialEq, Eq, Structural)]
pub struct PeerAddress {
    pub ip: IpAddress,
    pub port: u16,
}

/// One registered connection. Immutable once the registry has created it.
#[derive(Clone, Copy, Debug, PartialEq, Eq, Structural)]
pub struct ClientSession {
    pub client_id: u32,
    pub address: PeerAddress,
    pub protocol: Protocol,
    pub created_at: u64,
}

impl PeerAddress {
    pub fn new(ip: IpAddress, port: u16) -> (r: PeerAddress)
        ensures
            r == (PeerAddress { ip, port }),
    {
        PeerAddress { ip, port }
    }
}

} // verus!
