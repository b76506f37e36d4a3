//! Connection-level data: endpoints, dial configuration, and the error
//! kinds surfaced by dialing and listening.

use vstd::prelude::*;

use crate::ids::ConnectionId;
use crate::identity::PeerId;
use crate::multiaddr::Multiaddr;
use crate::multiaddr::SpecMultiaddr;

verus! {

/// The effective role of this node in a connection. The role in a dial
/// may differ from the transport direction during hole punching.
#[derive(Clone, Copy, Debug, PartialEq, Eq, Structural)]
pub enum Endpoint {
    /// This node opened the connection.
    Dialer,
    /// This node accepted the connection.
    Listener,
}

/// Whether an outbound dial reuses the port of a listener or allocates a
/// new one.
#[derive(Clone, Copy, Debug, PartialEq, Eq, Structural)]
pub enum PortUse {
    /// Allocate a new port.
    New,
    /// Reuse a listener port.
    Reuse,
}

/// Direction of a connection and the addresses that framed it.
#[derive(Clone, Debug)]
pub enum ConnectedPoint {
    /// This node dialed the remote.
    Dialer {
        /// The address dialed.
        address: Multiaddr,
        /// The effective role, which during hole punching may be
        /// `Listener` although this node dialed.
        role_override: Endpoint,
        /// How the local port was chosen.
        port_use: PortUse,
    },
    /// The remote dialed this node.
    Listener {
        /// The local address the connection arrived on.
        local_addr: Multiaddr,
        /// The address to dial back the remote.
        send_back_addr: Multiaddr,
    },
}

/// The mathematical model of a [`ConnectedPoint`].
pub enum SpecConnectedPoint {
    /// This node dialed the remote.
    Dialer {
        /// The address dialed.
        address: SpecMultiaddr,
        /// The effective role.
        role_override: Endpoint,
        /// How the local port was chosen.
        port_use: PortUse,
    },
    /// The remote dialed this node.
    Listener {
        /// The local address the connection arrived on.
        local_addr: SpecMultiaddr,
        /// The address to dial back the remote.
        send_back_addr: SpecMultiaddr,
    },
}

impl View for ConnectedPoint {
    type V = SpecConnectedPoint;

    open spec fn view(&self) -> SpecConnectedPoint {
        match self {
            ConnectedPoint::Dialer { address, role_override, port_use } => {
                SpecConnectedPoint::Dialer {
                    address: address@,
                    role_override: *role_override,
                    port_use: *port_use,
                }
            },
            ConnectedPoint::Listener { local_addr, send_back_addr } => {
                SpecConnectedPoint::Listener {
                    local_addr: local_addr@,
                    send_back_addr: send_back_addr@,
                }
            },
        }
    }
}

impl ConnectedPoint {
    /// A copy of this point, equal to it in the model.
    pub fn duplicate(&self) -> (r: ConnectedPoint)
        ensures
            r@ == self@,
    {
        match self {
            ConnectedPoint::Dialer { address, role_override, port_use } => {
                ConnectedPoint::Dialer {
                    address: address.duplicate(),
                    role_override: *role_override,
                    port_use: *port_use,
                }
            },
            ConnectedPoint::Listener { local_addr, send_back_addr } => {
                ConnectedPoint::Listener {
                    local_addr: local_addr.duplicate(),
                    send_back_addr: send_back_addr.duplicate(),
                }
            },
        }
    }
}

/// Configuration of a dial request. The connection identifier is issued
/// before the dial begins and identifies the connection for its lifetime.
#[derive(Debug)]
pub struct DialOpts {
    /// The peer expected at the other end, if known.
    pub peer: Option<PeerId>,
    /// The addresses to try.
    pub addresses: Vec<Multiaddr>,
    /// Whether the behaviour may augment the address list through
    /// `handle_pending_outbound_connection`.
    pub extend_addresses_through_behaviour: bool,
    /// The effective role for the dial; `Listener` for a hole punch.
    pub role_override: Endpoint,
    /// The pre-issued identifier of the connection this dial produces.
    pub connection_id: ConnectionId,
}

impl DialOpts {
    /// The pre-issued identifier of the connection this dial produces.
    pub fn connection_id(&self) -> (r: ConnectionId)
        ensures
            r == self.connection_id,
    {
        self.connection_id
    }
}

/// Configuration of a listen request.
#[derive(Debug)]
pub struct ListenOpts {
    /// The address to listen on.
    pub address: Multiaddr,
}

/// Why a transport could not serve a dial or a listen.
#[derive(Debug)]
pub enum TransportError {
    /// No transport in the stack accepts the address.
    NotSupported(Multiaddr),
    /// A transport accepted the address and then failed.
    Other(String),
}

/// A refusal from a behaviour callback, carrying its chain of causes.
#[derive(Debug)]
pub struct ConnectionDenied {
    /// The causes, outermost first.
    pub causes: Vec<String>,
}

/// Why a dial failed.
#[derive(Debug)]
pub enum DialError {
    /// No address was given and none could be derived from the peer.
    NoAddresses,
    /// The dial would have reached this node itself.
    LocalPeerId,
    /// A behaviour refused the connection.
    Denied(ConnectionDenied),
    /// Every address failed in the transport, each with its error.
    Transport(Vec<(Multiaddr, TransportError)>),
    /// The remote authenticated as a different peer than expected.
    WrongPeerId,
    /// The dial was abandoned before it resolved.
    Aborted,
    /// The dial condition of the request was not met.
    DialPeerConditionFalse,
}

/// Why an incoming connection failed.
#[derive(Debug)]
pub enum ListenError {
    /// A behaviour refused the connection.
    Denied(ConnectionDenied),
    /// The connection attempt was abandoned before it resolved.
    Aborted,
    /// The transport failed during the initial handshake.
    Transport(TransportError),
    /// The remote authenticated as a different peer than expected.
    WrongPeerId,
}

} // verus!
