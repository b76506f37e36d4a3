//! A behaviour that does nothing: the identity element of behaviour
//! composition, useful to drive a swarm with no protocol of its own.

use vstd::prelude::*;

use crate::behaviour::ConnectionHandler;
use crate::behaviour::FromSwarm;
use crate::behaviour::HandlerAction;
use crate::behaviour::NetworkBehaviour;
use crate::behaviour::ToSwarm;
use crate::connection::ConnectionDenied;
use crate::connection::Endpoint;
use crate::connection::PortUse;
use crate::identity::PeerId;
use crate::ids::ConnectionId;
use crate::multiaddr::Multiaddr;

verus! {

/// An event with no information: the dummy behaviour neither emits nor
/// distinguishes events.
#[derive(Debug, Clone, Copy, PartialEq, Eq, Structural)]
pub enum NoEvent {
    /// The one shape such an event can have.
    Unit,
}

/// The do-nothing behaviour.
#[derive(Debug)]
pub struct Behaviour;

/// The do-nothing connection handler.
#[derive(Debug)]
pub struct Handler;

impl ConnectionHandler for Handler {
    type InEvent = NoEvent;

    type OutEvent = NoEvent;

    open spec fn next_state(self, e: NoEvent) -> Handler {
        self
    }

    open spec fn poll_spec(self) -> (Handler, Option<HandlerAction<NoEvent>>) {
        (self, None)
    }

    open spec fn keep_alive_spec(self) -> bool {
        false
    }

    fn on_behaviour_event(&mut self, e: NoEvent) {
    }

    fn poll(&mut self) -> (r: Option<HandlerAction<NoEvent>>) {
        None
    }

    fn connection_keep_alive(&self) -> (r: bool) {
        false
    }
}

impl NetworkBehaviour for Behaviour {
    type Handler = Handler;

    type ToSwarm = NoEvent;

    open spec fn on_swarm_event_spec(self, event: FromSwarm) -> Behaviour {
        self
    }

    open spec fn on_handler_event_spec(
        self,
        peer_id: PeerId,
        connection_id: ConnectionId,
        event: NoEvent,
    ) -> Behaviour {
        self
    }

    open spec fn poll_spec(self) -> (Behaviour, Option<ToSwarm<NoEvent, NoEvent>>) {
        (self, None)
    }

    open spec fn establish_inbound_spec(
        self,
        connection_id: ConnectionId,
        peer: PeerId,
        local_addr: crate::multiaddr::SpecMultiaddr,
        remote_addr: crate::multiaddr::SpecMultiaddr,
    ) -> (Behaviour, Result<Handler, ConnectionDenied>) {
        (self, Ok(Handler))
    }

    open spec fn establish_outbound_spec(
        self,
        connection_id: ConnectionId,
        peer: PeerId,
        addr: crate::multiaddr::SpecMultiaddr,
        role_override: Endpoint,
        port_use: PortUse,
    ) -> (Behaviour, Result<Handler, ConnectionDenied>) {
        (self, Ok(Handler))
    }

    fn handle_pending_inbound_connection(
        &mut self,
        connection_id: ConnectionId,
        local_addr: &Multiaddr,
        remote_addr: &Multiaddr,
    ) -> (r: Result<(), ConnectionDenied>) {
        Ok(())
    }

    fn handle_pending_outbound_connection(
        &mut self,
        connection_id: ConnectionId,
        maybe_peer: Option<PeerId>,
        addresses: &Vec<Multiaddr>,
        effective_role: Endpoint,
    ) -> (r: Result<Vec<Multiaddr>, ConnectionDenied>) {
        let r: Vec<Multiaddr> = Vec::new();
        proof {
            assert(r@.map_values(|a: Multiaddr| a@) =~= Seq::<crate::multiaddr::SpecMultiaddr>::empty());
        }
        Ok(r)
    }

    fn handle_established_inbound_connection(
        &mut self,
        connection_id: ConnectionId,
        peer: PeerId,
        local_addr: &Multiaddr,
        remote_addr: &Multiaddr,
    ) -> Result<Handler, ConnectionDenied> {
        Ok(Handler)
    }

    fn handle_established_outbound_connection(
        &mut self,
        connection_id: ConnectionId,
        peer: PeerId,
        addr: &Multiaddr,
        role_override: Endpoint,
        port_use: PortUse,
    ) -> Result<Handler, ConnectionDenied> {
        Ok(Handler)
    }

    fn on_swarm_event(&mut self, event: &FromSwarm) {
    }

    fn on_connection_handler_event(
        &mut self,
        peer_id: PeerId,
        connection_id: ConnectionId,
        event: NoEvent,
    ) {
    }

    fn poll(&mut self) -> (r: Option<ToSwarm<NoEvent, NoEvent>>) {
        None
    }
}

} // verus!
