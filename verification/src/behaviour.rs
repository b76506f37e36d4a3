//! The protocol-composition contract: what a behaviour observes from the
//! swarm, what it commands the swarm to do, and the per-connection
//! handler contract.

use vstd::prelude::*;

use crate::connection::ConnectedPoint;
use crate::connection::ConnectionDenied;
use crate::connection::DialError;
use crate::connection::DialOpts;
use crate::connection::Endpoint;
use crate::connection::ListenError;
use crate::connection::ListenOpts;
use crate::connection::PortUse;
use crate::identity::PeerId;
use crate::ids::ConnectionId;
use crate::ids::ListenerId;
use crate::multiaddr::Multiaddr;
use crate::multiaddr::SpecMultiaddr;

verus! {

/// Which connection handler of a peer to notify of an event.
#[derive(Debug, Clone)]
pub enum NotifyHandler {
    /// Notify a particular connection handler.
    One(ConnectionId),
    /// Notify an arbitrary connection handler.
    Any,
}

/// Which connections of a peer to close.
#[derive(Debug, Clone)]
pub enum CloseConnection {
    /// Disconnect a particular connection.
    One(ConnectionId),
    /// Disconnect all connections.
    All,
}

impl Default for CloseConnection {
    /// By default all connections of the peer are closed.
    fn default() -> (r: CloseConnection)
        ensures
            r is All,
    {
        CloseConnection::All
    }
}

/// A command issued from a behaviour for the swarm.
#[derive(Debug)]
pub enum ToSwarm<TOutEvent, TInEvent> {
    /// Return an event to the caller polling the swarm.
    GenerateEvent(TOutEvent),
    /// Start a dial.
    Dial {
        /// The configuration of the dial request.
        opts: DialOpts,
    },
    /// Listen on an address.
    ListenOn {
        /// The configuration of the listen request.
        opts: ListenOpts,
    },
    /// Remove a listener.
    RemoveListener {
        /// The listener to remove.
        id: ListenerId,
    },
    /// Send an event to the handler of a connection with a peer. If the
    /// addressed connection no longer exists, the event is silently
    /// dropped.
    NotifyHandler {
        /// The peer whose handler to notify.
        peer_id: PeerId,
        /// Which connection handler of that peer to notify.
        handler: NotifyHandler,
        /// The event to send.
        event: TInEvent,
    },
    /// Report a new candidate for an external address of this node.
    NewExternalAddrCandidate(Multiaddr),
    /// Report that an address is confirmed to be externally reachable.
    ExternalAddrConfirmed(Multiaddr),
    /// Report that an address is no longer externally reachable.
    ExternalAddrExpired(Multiaddr),
    /// Gracefully close one or all connections with a peer.
    CloseConnection {
        /// The peer to disconnect.
        peer_id: PeerId,
        /// Which of its connections to close.
        connection: CloseConnection,
    },
}

impl<TOutEvent, TInEventOld> ToSwarm<TOutEvent, TInEventOld> {
    /// Maps the handler event, leaving every other command unchanged.
    pub fn map_in<TInEventNew, F: FnOnce(TInEventOld) -> TInEventNew>(self, f: F) -> (r: ToSwarm<
        TOutEvent,
        TInEventNew,
    >)
        requires
            self matches ToSwarm::NotifyHandler { peer_id, handler, event } ==> call_requires(
                f,
                (event,),
            ),
        ensures
            self matches ToSwarm::GenerateEvent(e) ==> r == ToSwarm::<
                TOutEvent,
                TInEventNew,
            >::GenerateEvent(e),
            self matches ToSwarm::Dial { opts } ==> r == (ToSwarm::<TOutEvent, TInEventNew>::Dial {
                opts,
            }),
            self matches ToSwarm::ListenOn { opts } ==> r == (ToSwarm::<
                TOutEvent,
                TInEventNew,
            >::ListenOn { opts }),
            self matches ToSwarm::RemoveListener { id } ==> r == (ToSwarm::<
                TOutEvent,
                TInEventNew,
            >::RemoveListener { id }),
            self matches ToSwarm::NotifyHandler { peer_id, handler, event } ==> (r matches
                ToSwarm::NotifyHandler { peer_id: p2, handler: h2, event: e2 } && p2 == peer_id
                && h2 == handler && call_ensures(f, (event,), e2)),
            self matches ToSwarm::NewExternalAddrCandidate(a) ==> r == ToSwarm::<
                TOutEvent,
                TInEventNew,
            >::NewExternalAddrCandidate(a),
            self matches ToSwarm::ExternalAddrConfirmed(a) ==> r == ToSwarm::<
                TOutEvent,
                TInEventNew,
            >::ExternalAddrConfirmed(a),
            self matches ToSwarm::ExternalAddrExpired(a) ==> r == ToSwarm::<
                TOutEvent,
                TInEventNew,
            >::ExternalAddrExpired(a),
            self matches ToSwarm::CloseConnection { peer_id, connection } ==> r == (ToSwarm::<
                TOutEvent,
                TInEventNew,
            >::CloseConnection { peer_id, connection }),
    {
        match self {
            ToSwarm::GenerateEvent(e) => ToSwarm::GenerateEvent(e),
            ToSwarm::Dial { opts } => ToSwarm::Dial { opts },
            ToSwarm::ListenOn { opts } => ToSwarm::ListenOn { opts },
            ToSwarm::RemoveListener { id } => ToSwarm::RemoveListener { id },
            ToSwarm::NotifyHandler { peer_id, handler, event } => ToSwarm::NotifyHandler {
                peer_id,
                handler,
                event: f(event),
            },
            ToSwarm::NewExternalAddrCandidate(addr) => ToSwarm::NewExternalAddrCandidate(addr),
            ToSwarm::ExternalAddrConfirmed(addr) => ToSwarm::ExternalAddrConfirmed(addr),
            ToSwarm::ExternalAddrExpired(addr) => ToSwarm::ExternalAddrExpired(addr),
            ToSwarm::CloseConnection { peer_id, connection } => ToSwarm::CloseConnection {
                peer_id,
                connection,
            },
        }
    }

    /// Maps the event the swarm will return, leaving every other command
    /// unchanged.
    pub fn map_out<E, F: FnOnce(TOutEvent) -> E>(self, f: F) -> (r: ToSwarm<E, TInEventOld>)
        requires
            self matches ToSwarm::GenerateEvent(e) ==> call_requires(f, (e,)),
        ensures
            self matches ToSwarm::GenerateEvent(e) ==> (r matches ToSwarm::GenerateEvent(e2)
                && call_ensures(f, (e,), e2)),
            self matches ToSwarm::Dial { opts } ==> r == (ToSwarm::<E, TInEventOld>::Dial {
                opts,
            }),
            self matches ToSwarm::ListenOn { opts } ==> r == (ToSwarm::<E, TInEventOld>::ListenOn {
                opts,
            }),
            self matches ToSwarm::RemoveListener { id } ==> r == (ToSwarm::<
                E,
                TInEventOld,
            >::RemoveListener { id }),
            self matches ToSwarm::NotifyHandler { peer_id, handler, event } ==> r == (ToSwarm::<
                E,
                TInEventOld,
            >::NotifyHandler { peer_id, handler, event }),
            self matches ToSwarm::NewExternalAddrCandidate(a) ==> r == ToSwarm::<
                E,
                TInEventOld,
            >::NewExternalAddrCandidate(a),
            self matches ToSwarm::ExternalAddrConfirmed(a) ==> r == ToSwarm::<
                E,
                TInEventOld,
            >::ExternalAddrConfirmed(a),
            self matches ToSwarm::ExternalAddrExpired(a) ==> r == ToSwarm::<
                E,
                TInEventOld,
            >::ExternalAddrExpired(a),
            self matches ToSwarm::CloseConnection { peer_id, connection } ==> r == (ToSwarm::<
                E,
                TInEventOld,
            >::CloseConnection { peer_id, connection }),
    {
        match self {
            ToSwarm::GenerateEvent(e) => ToSwarm::GenerateEvent(f(e)),
            ToSwarm::Dial { opts } => ToSwarm::Dial { opts },
            ToSwarm::ListenOn { opts } => ToSwarm::ListenOn { opts },
            ToSwarm::RemoveListener { id } => ToSwarm::RemoveListener { id },
            ToSwarm::NotifyHandler { peer_id, handler, event } => ToSwarm::NotifyHandler {
                peer_id,
                handler,
                event,
            },
            ToSwarm::NewExternalAddrCandidate(addr) => ToSwarm::NewExternalAddrCandidate(addr),
            ToSwarm::ExternalAddrConfirmed(addr) => ToSwarm::ExternalAddrConfirmed(addr),
            ToSwarm::ExternalAddrExpired(addr) => ToSwarm::ExternalAddrExpired(addr),
            ToSwarm::CloseConnection { peer_id, connection } => ToSwarm::CloseConnection {
                peer_id,
                connection,
            },
        }
    }
}

/// A lifecycle event delivered from the swarm to the behaviour.
#[derive(Debug)]
pub enum FromSwarm {
    /// A connection to a peer was established.
    ConnectionEstablished(ConnectionEstablished),
    /// A connection to a peer closed. Always paired with an earlier
    /// `ConnectionEstablished` with the same peer, connection identifier
    /// and endpoint.
    ConnectionClosed(ConnectionClosed),
    /// The endpoint of an existing connection changed.
    AddressChange(AddressChange),
    /// A dial failed.
    DialFailure(DialFailure),
    /// An incoming connection failed during its initial handshake.
    ListenFailure(ListenFailure),
    /// A new listener was created.
    NewListener(NewListener),
    /// A listener began listening on a new address.
    NewListenAddr(NewListenAddr),
    /// A listen address expired.
    ExpiredListenAddr(ExpiredListenAddr),
    /// A listener reported a non-fatal error.
    ListenerError(ListenerError),
    /// A listener closed.
    ListenerClosed(ListenerClosed),
    /// A new candidate for an external address of this node.
    NewExternalAddrCandidate(NewExternalAddrCandidate),
    /// An external address of this node was confirmed.
    ExternalAddrConfirmed(ExternalAddrConfirmed),
    /// An external address of this node expired.
    ExternalAddrExpired(ExternalAddrExpired),
}

/// Data of [`FromSwarm::ConnectionEstablished`].
#[derive(Debug)]
pub struct ConnectionEstablished {
    /// The peer at the other end.
    pub peer_id: PeerId,
    /// The identifier of the connection.
    pub connection_id: ConnectionId,
    /// Direction and framing addresses of the connection.
    pub endpoint: ConnectedPoint,
    /// Addresses that failed before this one succeeded.
    pub failed_addresses: Vec<Multiaddr>,
    /// How many other connections to the peer were already established.
    pub other_established: usize,
}

/// Data of [`FromSwarm::ConnectionClosed`].
#[derive(Debug)]
pub struct ConnectionClosed {
    /// The peer at the other end.
    pub peer_id: PeerId,
    /// The identifier of the connection.
    pub connection_id: ConnectionId,
    /// Direction and framing addresses of the connection.
    pub endpoint: ConnectedPoint,
    /// How many connections to the peer remain established.
    pub remaining_established: usize,
}

/// Data of [`FromSwarm::AddressChange`].
#[derive(Debug)]
pub struct AddressChange {
    /// The peer at the other end.
    pub peer_id: PeerId,
    /// The identifier of the connection.
    pub connection_id: ConnectionId,
    /// The endpoint before the change.
    pub old_endpoint: ConnectedPoint,
    /// The endpoint after the change.
    pub new_endpoint: ConnectedPoint,
}

/// Data of [`FromSwarm::DialFailure`].
#[derive(Debug)]
pub struct DialFailure {
    /// The peer dialed, if known.
    pub peer_id: Option<PeerId>,
    /// Why the dial failed.
    pub error: DialError,
    /// The identifier issued for the dial.
    pub connection_id: ConnectionId,
}

/// Data of [`FromSwarm::ListenFailure`].
#[derive(Debug)]
pub struct ListenFailure {
    /// The local address the connection arrived on.
    pub local_addr: Multiaddr,
    /// The address to dial back the remote.
    pub send_back_addr: Multiaddr,
    /// Why the connection failed.
    pub error: ListenError,
    /// The identifier issued for the connection.
    pub connection_id: ConnectionId,
}

/// Data of [`FromSwarm::NewListener`].
#[derive(Debug)]
pub struct NewListener {
    /// The identifier of the listener.
    pub listener_id: ListenerId,
}

/// Data of [`FromSwarm::NewListenAddr`].
#[derive(Debug)]
pub struct NewListenAddr {
    /// The listener the address belongs to.
    pub listener_id: ListenerId,
    /// The new listen address.
    pub addr: Multiaddr,
}

/// Data of [`FromSwarm::ExpiredListenAddr`].
#[derive(Debug)]
pub struct ExpiredListenAddr {
    /// The listener the address belonged to.
    pub listener_id: ListenerId,
    /// The expired listen address.
    pub addr: Multiaddr,
}

/// Data of [`FromSwarm::ListenerError`].
#[derive(Debug)]
pub struct ListenerError {
    /// The listener that reported the error.
    pub listener_id: ListenerId,
    /// A description of the error.
    pub error: String,
}

/// Data of [`FromSwarm::ListenerClosed`].
#[derive(Debug)]
pub struct ListenerClosed {
    /// The listener that closed.
    pub listener_id: ListenerId,
    /// A description of the error that closed it, if any.
    pub reason: Option<String>,
}

/// Data of [`FromSwarm::NewExternalAddrCandidate`].
#[derive(Debug)]
pub struct NewExternalAddrCandidate {
    /// The candidate address.
    pub addr: Multiaddr,
}

/// Data of [`FromSwarm::ExternalAddrConfirmed`].
#[derive(Debug)]
pub struct ExternalAddrConfirmed {
    /// The confirmed address.
    pub addr: Multiaddr,
}

/// Data of [`FromSwarm::ExternalAddrExpired`].
#[derive(Debug)]
pub struct ExternalAddrExpired {
    /// The expired address.
    pub addr: Multiaddr,
}

/// What a connection handler asks of the connection that polls it.
#[derive(Debug)]
pub enum HandlerAction<TCustom> {
    /// Open an outbound substream.
    RequestSubstream,
    /// Deliver an event to the behaviour.
    NotifyBehaviour(TCustom),
    /// Close the connection.
    Close,
}

/// The per-connection arm of a behaviour: a deterministic protocol state
/// machine driven by behaviour commands and substream lifecycle events.
pub trait ConnectionHandler: Sized {
    /// Commands this handler accepts from its behaviour.
    type InEvent;

    /// Events this handler reports to its behaviour.
    type OutEvent;

    /// The state after accepting a command from the behaviour.
    spec fn next_state(self, e: Self::InEvent) -> Self;

    /// The state after one poll, and what the poll yields.
    spec fn poll_spec(self) -> (Self, Option<HandlerAction<Self::OutEvent>>);

    /// Whether the connection may be closed for idleness.
    spec fn keep_alive_spec(self) -> bool;

    /// Accepts a command from the behaviour.
    fn on_behaviour_event(&mut self, e: Self::InEvent)
        ensures
            *final(self) == old(self).next_state(e),
    ;

    /// Makes progress: yields one action, or nothing when idle.
    fn poll(&mut self) -> (r: Option<HandlerAction<Self::OutEvent>>)
        ensures
            *final(self) == old(self).poll_spec().0,
            r == old(self).poll_spec().1,
    ;

    /// Whether the connection may be closed for idleness.
    fn connection_keep_alive(&self) -> (r: bool)
        ensures
            r == self.keep_alive_spec(),
    ;
}

/// A protocol state machine composed into the swarm. Lifecycle callbacks
/// and handler events flow in; commands for the swarm flow out.
pub trait NetworkBehaviour: Sized {
    /// The handler built for each established connection.
    type Handler: ConnectionHandler;

    /// Events this behaviour reports to the caller of the swarm.
    type ToSwarm;

    /// The state after observing a lifecycle event.
    spec fn on_swarm_event_spec(self, event: FromSwarm) -> Self;

    /// The state after observing an event from a connection handler.
    spec fn on_handler_event_spec(
        self,
        peer_id: PeerId,
        connection_id: ConnectionId,
        event: <Self::Handler as ConnectionHandler>::OutEvent,
    ) -> Self;

    /// The state after one poll, and the command the poll yields.
    spec fn poll_spec(self) -> (
        Self,
        Option<ToSwarm<Self::ToSwarm, <Self::Handler as ConnectionHandler>::InEvent>>,
    );

    /// The state after gating a pending inbound connection, and the
    /// gate's verdict. By default every connection is permitted and the
    /// state is kept.
    open spec fn pending_inbound_spec(
        self,
        connection_id: ConnectionId,
        local_addr: SpecMultiaddr,
        remote_addr: SpecMultiaddr,
    ) -> (Self, Result<(), ConnectionDenied>) {
        (self, Ok(()))
    }

    /// The state after gating a pending outbound connection, and the
    /// addresses it adds to the dial, or its refusal. By default no
    /// address is added and the state is kept.
    open spec fn pending_outbound_spec(
        self,
        connection_id: ConnectionId,
        maybe_peer: Option<PeerId>,
        addresses: Seq<SpecMultiaddr>,
        effective_role: Endpoint,
    ) -> (Self, Result<Seq<SpecMultiaddr>, ConnectionDenied>) {
        (self, Ok(Seq::empty()))
    }

    /// The state after gating an established inbound connection, and the
    /// handler built for it, or its refusal.
    spec fn establish_inbound_spec(
        self,
        connection_id: ConnectionId,
        peer: PeerId,
        local_addr: SpecMultiaddr,
        remote_addr: SpecMultiaddr,
    ) -> (Self, Result<Self::Handler, ConnectionDenied>);

    /// The state after gating an established outbound connection, and the
    /// handler built for it, or its refusal.
    spec fn establish_outbound_spec(
        self,
        connection_id: ConnectionId,
        peer: PeerId,
        addr: SpecMultiaddr,
        role_override: Endpoint,
        port_use: PortUse,
    ) -> (Self, Result<Self::Handler, ConnectionDenied>);

    /// Gate for a pending inbound connection, before any handler exists.
    /// By default every connection is permitted.
    fn handle_pending_inbound_connection(
        &mut self,
        connection_id: ConnectionId,
        local_addr: &Multiaddr,
        remote_addr: &Multiaddr,
    ) -> (r: Result<(), ConnectionDenied>)
        ensures
            *final(self) == old(self).pending_inbound_spec(
                connection_id,
                local_addr@,
                remote_addr@,
            ).0,
            r == old(self).pending_inbound_spec(connection_id, local_addr@, remote_addr@).1,
    ;

    /// Builds the handler for an established inbound connection, or
    /// refuses it.
    fn handle_established_inbound_connection(
        &mut self,
        connection_id: ConnectionId,
        peer: PeerId,
        local_addr: &Multiaddr,
        remote_addr: &Multiaddr,
    ) -> (r: Result<Self::Handler, ConnectionDenied>)
        ensures
            *final(self) == old(self).establish_inbound_spec(
                connection_id,
                peer,
                local_addr@,
                remote_addr@,
            ).0,
            r == old(self).establish_inbound_spec(connection_id, peer, local_addr@, remote_addr@).1,
    ;

    /// Gate for a pending outbound connection; may augment the address
    /// list when the dial opted in. By default no address is added.
    fn handle_pending_outbound_connection(
        &mut self,
        connection_id: ConnectionId,
        maybe_peer: Option<PeerId>,
        addresses: &Vec<Multiaddr>,
        effective_role: Endpoint,
    ) -> (r: Result<Vec<Multiaddr>, ConnectionDenied>)
        ensures
            ({
                let g = old(self).pending_outbound_spec(
                    connection_id,
                    maybe_peer,
                    addresses@.map_values(|a: Multiaddr| a@),
                    effective_role,
                );
                &&& *final(self) == g.0
                &&& match g.1 {
                    Ok(s) => r matches Ok(v) && v@.map_values(|a: Multiaddr| a@) == s,
                    Err(d) => r matches Err(d2) && d2 == d,
                }
            }),
    ;

    /// Builds the handler for an established outbound connection, or
    /// refuses it.
    fn handle_established_outbound_connection(
        &mut self,
        connection_id: ConnectionId,
        peer: PeerId,
        addr: &Multiaddr,
        role_override: Endpoint,
        port_use: PortUse,
    ) -> (r: Result<Self::Handler, ConnectionDenied>)
        ensures
            *final(self) == old(self).establish_outbound_spec(
                connection_id,
                peer,
                addr@,
                role_override,
                port_use,
            ).0,
            r == old(self).establish_outbound_spec(
                connection_id,
                peer,
                addr@,
                role_override,
                port_use,
            ).1,
    ;

    /// Observes a lifecycle event from the swarm.
    fn on_swarm_event(&mut self, event: &FromSwarm)
        ensures
            *final(self) == old(self).on_swarm_event_spec(*event),
    ;

    /// Observes an event from the handler of an established connection.
    fn on_connection_handler_event(
        &mut self,
        peer_id: PeerId,
        connection_id: ConnectionId,
        event: <Self::Handler as ConnectionHandler>::OutEvent,
    )
        ensures
            *final(self) == old(self).on_handler_event_spec(peer_id, connection_id, event),
    ;

    /// Makes progress: yields one command, or nothing when idle. The
    /// swarm re-polls until nothing is yielded.
    fn poll(&mut self) -> (r: Option<
        ToSwarm<Self::ToSwarm, <Self::Handler as ConnectionHandler>::InEvent>,
    >)
        ensures
            *final(self) == old(self).poll_spec().0,
            r == old(self).poll_spec().1,
    ;
}

} // verus!
