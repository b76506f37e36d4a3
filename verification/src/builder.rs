//! The typed, phased assembly of a swarm: identity, executor provider,
//! TCP, security, QUIC, further transports, DNS, relay, WebSocket,
//! behaviour, and the final build.
//!
//! Each phase is a distinct type, and only the methods legal in the
//! current phase exist on the builder carrying it, so a construction that
//! skips a required phase does not type-check. The accumulated transport
//! is described by the stack of layers chosen so far.

use vstd::prelude::*;

use crate::behaviour::NetworkBehaviour;
use crate::identity::Keypair;
use crate::swarm::Swarm;

verus! {

/// Which authentication upgrade a transport layer negotiates.
#[derive(Clone, Copy, Debug, PartialEq, Eq, Structural)]
pub enum SecurityUpgrade {
    /// TLS alone.
    Tls,
    /// Noise alone.
    Noise,
    /// Either of TLS and Noise, negotiated with the remote.
    TlsOrNoise,
}

/// One layer of the assembled transport stack.
#[derive(Clone, Copy, Debug, PartialEq, Eq, Structural)]
pub enum TransportDesc {
    /// A TCP transport with the given configuration and authentication,
    /// and Yamux multiplexing.
    Tcp(TcpConfig, SecurityUpgrade),
    /// A QUIC transport, authenticated and multiplexed natively.
    Quic,
    /// A relay client leg with the given authentication.
    Relay(SecurityUpgrade),
    /// A WebSocket transport over resolved TCP with the given
    /// authentication.
    Websocket(SecurityUpgrade),
    /// A direct WebRTC transport.
    Webrtc,
    /// A transport that serves nothing.
    Dummy,
}

/// The accumulated transport stack: the layers composed in parallel, and
/// whether name resolution wraps them.
#[derive(Clone, Debug)]
pub struct TransportStack {
    /// The layers, in the order they were attached.
    pub parts: Vec<TransportDesc>,
    /// Whether the stack is wrapped in a name resolver.
    pub dns: bool,
}

/// Configuration of the TCP transport layer.
#[derive(Clone, Copy, Debug, PartialEq, Eq, Structural)]
pub struct TcpConfig {
    /// Whether small writes are sent without delay.
    pub nodelay: bool,
}

impl Default for TcpConfig {
    /// The default configuration leaves small writes batched.
    fn default() -> (r: TcpConfig)
        ensures
            r.nodelay == false,
    {
        TcpConfig { nodelay: false }
    }
}

/// A value that can serve as a transport whose connections come out
/// authenticated and multiplexed: it describes itself as one stack layer.
pub trait AuthenticatedMultiplexedTransport: Sized {
    /// The layer this transport stands for.
    spec fn spec_desc(self) -> TransportDesc;

    /// The layer this transport stands for.
    fn descriptor(&self) -> (r: TransportDesc)
        ensures
            r == self.spec_desc(),
    ;
}

/// A transport that serves nothing: it accepts no address and never
/// yields a connection.
#[derive(Clone, Copy, Debug)]
pub struct DummyTransport;

impl DummyTransport {
    /// Builds the transport that serves nothing.
    pub fn new() -> DummyTransport {
        DummyTransport
    }
}

impl AuthenticatedMultiplexedTransport for DummyTransport {
    open spec fn spec_desc(self) -> TransportDesc {
        TransportDesc::Dummy
    }

    fn descriptor(&self) -> (r: TransportDesc) {
        TransportDesc::Dummy
    }
}

/// A value a behaviour can be built from, possibly fallibly.
pub trait TryIntoBehaviour<B>: Sized {
    /// Why the behaviour could not be built.
    type Error;

    /// What the conversion yields.
    spec fn conversion_spec(self) -> Result<B, Self::Error>;

    /// Builds the behaviour.
    fn try_into_behaviour(self) -> (r: Result<B, Self::Error>)
        ensures
            r == self.conversion_spec(),
    ;
}

/// Why a behaviour that is already a behaviour could not be built: it
/// cannot happen.
#[derive(Debug)]
pub enum NoBehaviourError {
    /// Never constructed.
    Unreachable,
}

impl<B: NetworkBehaviour> TryIntoBehaviour<B> for B {
    type Error = NoBehaviourError;

    open spec fn conversion_spec(self) -> Result<B, NoBehaviourError> {
        Ok(self)
    }

    fn try_into_behaviour(self) -> (r: Result<B, NoBehaviourError>) {
        Ok(self)
    }
}

/// Why constructing an authentication upgrade failed.
#[derive(Debug)]
pub enum AuthenticationError {
    /// The TLS certificate could not be produced.
    Tls,
    /// The Noise keys could not be produced.
    Noise,
}

/// Why acquiring the system name resolver failed.
#[derive(Debug)]
pub enum DnsError {
    /// The system resolver configuration could not be read.
    SystemConfiguration,
}

/// Why assembling the WebSocket transport failed.
#[derive(Debug)]
pub enum WebsocketError {
    /// An authentication upgrade could not be constructed.
    Authentication(AuthenticationError),
    /// The name resolver could not be acquired.
    Dns(DnsError),
}

/// No executor provider chosen yet.
#[derive(Debug)]
pub enum NoProviderSpecified {
    /// Phase marker; never constructed.
    Marker,
}

/// The cooperative single-threaded executor family.
#[derive(Debug)]
pub enum AsyncStd {
    /// Phase marker; never constructed.
    Marker,
}

/// The work-stealing executor family.
#[derive(Debug)]
pub enum Tokio {
    /// Phase marker; never constructed.
    Marker,
}

/// Marker: TLS was chosen for this layer.
#[derive(Debug)]
pub enum Tls {
    /// Phase marker; never constructed.
    Marker,
}

/// Marker: TLS was not chosen for this layer.
#[derive(Debug)]
pub enum WithoutTls {
    /// Phase marker; never constructed.
    Marker,
}

/// Marker: no relay client was requested.
#[derive(Debug)]
pub struct NoRelayBehaviour;

/// The behaviour half of a relay client, to be embedded into the user's
/// composite behaviour. The transport half joins the stack.
#[derive(Clone, Copy, Debug)]
pub struct RelayClientBehaviour {
    /// The identity the relay client reserves slots under.
    pub local_peer_id: crate::identity::PeerId,
}

impl crate::behaviour::NetworkBehaviour for RelayClientBehaviour {
    type Handler = crate::dummy::Handler;

    type ToSwarm = crate::dummy::NoEvent;

    open spec fn on_swarm_event_spec(self, event: crate::behaviour::FromSwarm) -> Self {
        self
    }

    open spec fn on_handler_event_spec(
        self,
        peer_id: crate::identity::PeerId,
        connection_id: crate::ids::ConnectionId,
        event: crate::dummy::NoEvent,
    ) -> Self {
        self
    }

    open spec fn poll_spec(self) -> (
        Self,
        Option<crate::behaviour::ToSwarm<crate::dummy::NoEvent, crate::dummy::NoEvent>>,
    ) {
        (self, None)
    }

    open spec fn establish_inbound_spec(
        self,
        connection_id: crate::ids::ConnectionId,
        peer: crate::identity::PeerId,
        local_addr: crate::multiaddr::SpecMultiaddr,
        remote_addr: crate::multiaddr::SpecMultiaddr,
    ) -> (Self, Result<crate::dummy::Handler, crate::connection::ConnectionDenied>) {
        (self, Ok(crate::dummy::Handler))
    }

    open spec fn establish_outbound_spec(
        self,
        connection_id: crate::ids::ConnectionId,
        peer: crate::identity::PeerId,
        addr: crate::multiaddr::SpecMultiaddr,
        role_override: crate::connection::Endpoint,
        port_use: crate::connection::PortUse,
    ) -> (Self, Result<crate::dummy::Handler, crate::connection::ConnectionDenied>) {
        (self, Ok(crate::dummy::Handler))
    }

    fn handle_pending_inbound_connection(
        &mut self,
        connection_id: crate::ids::ConnectionId,
        local_addr: &crate::multiaddr::Multiaddr,
        remote_addr: &crate::multiaddr::Multiaddr,
    ) -> (r: Result<(), crate::connection::ConnectionDenied>) {
        Ok(())
    }

    fn handle_pending_outbound_connection(
        &mut self,
        connection_id: crate::ids::ConnectionId,
        maybe_peer: Option<crate::identity::PeerId>,
        addresses: &Vec<crate::multiaddr::Multiaddr>,
        effective_role: crate::connection::Endpoint,
    ) -> (r: Result<Vec<crate::multiaddr::Multiaddr>, crate::connection::ConnectionDenied>) {
        let r: Vec<crate::multiaddr::Multiaddr> = Vec::new();
        proof {
            assert(r@.map_values(|a: crate::multiaddr::Multiaddr| a@)
                =~= Seq::<crate::multiaddr::SpecMultiaddr>::empty());
        }
        Ok(r)
    }

    fn handle_established_inbound_connection(
        &mut self,
        connection_id: crate::ids::ConnectionId,
        peer: crate::identity::PeerId,
        local_addr: &crate::multiaddr::Multiaddr,
        remote_addr: &crate::multiaddr::Multiaddr,
    ) -> Result<crate::dummy::Handler, crate::connection::ConnectionDenied> {
        Ok(crate::dummy::Handler)
    }

    fn handle_established_outbound_connection(
        &mut self,
        connection_id: crate::ids::ConnectionId,
        peer: crate::identity::PeerId,
        addr: &crate::multiaddr::Multiaddr,
        role_override: crate::connection::Endpoint,
        port_use: crate::connection::PortUse,
    ) -> Result<crate::dummy::Handler, crate::connection::ConnectionDenied> {
        Ok(crate::dummy::Handler)
    }

    fn on_swarm_event(&mut self, event: &crate::behaviour::FromSwarm) {
    }

    fn on_connection_handler_event(
        &mut self,
        peer_id: crate::identity::PeerId,
        connection_id: crate::ids::ConnectionId,
        event: crate::dummy::NoEvent,
    ) {
    }

    fn poll(&mut self) -> (r: Option<
        crate::behaviour::ToSwarm<crate::dummy::NoEvent, crate::dummy::NoEvent>,
    >) {
        None
    }
}

/// The phase where an identity is chosen.
#[derive(Debug)]
pub struct InitialPhase {}

/// The phase where an executor provider is chosen.
#[derive(Debug)]
pub struct ProviderPhase {}

/// The phase where a TCP transport may be attached.
#[derive(Debug)]
pub struct TcpPhase {}

/// The phase where TLS may be enabled for the TCP layer.
#[derive(Debug)]
pub struct TcpTlsPhase {
    /// The configuration of the TCP layer.
    pub config: TcpConfig,
}

/// The phase where Noise may be enabled for the TCP layer.
#[derive(Debug)]
pub struct TcpNoisePhase<A> {
    /// The configuration of the TCP layer.
    pub config: TcpConfig,
    /// Whether TLS was chosen before.
    pub phantom: core::marker::PhantomData<A>,
}

/// The phase where a QUIC transport may be attached.
#[derive(Debug)]
pub struct QuicPhase {
    /// The stack assembled so far.
    pub transport: TransportStack,
}

/// The phase where further transports may be attached.
#[derive(Debug)]
pub struct OtherTransportPhase {
    /// The stack assembled so far.
    pub transport: TransportStack,
}

/// The phase where name resolution may wrap the stack.
#[derive(Debug)]
pub struct DnsPhase {
    /// The stack assembled so far.
    pub transport: TransportStack,
}

/// The phase where a relay client may be attached.
#[derive(Debug)]
pub struct RelayPhase {
    /// The stack assembled so far.
    pub transport: TransportStack,
}

/// The phase where TLS may be enabled for the relay leg.
#[derive(Debug)]
pub struct RelayTlsPhase {
    /// The stack assembled so far.
    pub transport: TransportStack,
}

/// The phase where Noise may be enabled for the relay leg.
#[derive(Debug)]
pub struct RelayNoisePhase<A> {
    /// The stack assembled so far.
    pub transport: TransportStack,
    /// Whether TLS was chosen before.
    pub phantom: core::marker::PhantomData<A>,
}

/// The phase where a WebSocket transport may be attached.
#[derive(Debug)]
pub struct WebsocketPhase<R> {
    /// The stack assembled so far.
    pub transport: TransportStack,
    /// The relay client behaviour, if a relay was attached.
    pub relay_behaviour: R,
}

/// The phase where TLS may be enabled for the WebSocket layer.
#[derive(Debug)]
pub struct WebsocketTlsPhase<R> {
    /// The stack assembled so far.
    pub transport: TransportStack,
    /// The relay client behaviour, if a relay was attached.
    pub relay_behaviour: R,
}

/// The phase where Noise may be enabled for the WebSocket layer.
#[derive(Debug)]
pub struct WebsocketNoisePhase<R, A> {
    /// The stack assembled so far.
    pub transport: TransportStack,
    /// The relay client behaviour, if a relay was attached.
    pub relay_behaviour: R,
    /// Whether TLS was chosen before.
    pub phantom: core::marker::PhantomData<A>,
}

/// The phase where the root behaviour is supplied.
#[derive(Debug)]
pub struct BehaviourPhase<R> {
    /// The relay client behaviour, if a relay was attached.
    pub relay_behaviour: R,
    /// The finished stack.
    pub transport: TransportStack,
}

/// The phase where the swarm is produced.
#[derive(Debug)]
pub struct BuildPhase<B> {
    /// The root behaviour.
    pub behaviour: B,
    /// The finished stack.
    pub transport: TransportStack,
}

/// The builder of a swarm, carrying the chosen identity and the data of
/// its current phase.
#[derive(Debug)]
pub struct SwarmBuilder<Provider, Phase> {
    keypair: Keypair,
    phantom: core::marker::PhantomData<Provider>,
    phase: Phase,
}

impl<Provider, Phase> SwarmBuilder<Provider, Phase> {
    /// The identity the swarm will use.
    pub closed spec fn spec_keypair(self) -> Keypair {
        self.keypair
    }

    /// The data of the current phase.
    pub closed spec fn spec_phase(self) -> Phase {
        self.phase
    }
}

impl SwarmBuilder<NoProviderSpecified, InitialPhase> {
    /// Starts a build with a freshly generated identity.
    pub fn with_new_identity() -> SwarmBuilder<NoProviderSpecified, ProviderPhase> {
        SwarmBuilder::with_existing_identity(Keypair::generate())
    }

    /// Starts a build with a given identity.
    pub fn with_existing_identity(keypair: Keypair) -> (r: SwarmBuilder<
        NoProviderSpecified,
        ProviderPhase,
    >)
        ensures
            r.spec_keypair() == keypair,
    {
        SwarmBuilder { keypair, phantom: core::marker::PhantomData, phase: ProviderPhase {} }
    }
}

impl SwarmBuilder<NoProviderSpecified, ProviderPhase> {
    /// Chooses the cooperative single-threaded executor family.
    pub fn with_async_std(self) -> (r: SwarmBuilder<AsyncStd, TcpPhase>)
        ensures
            r.spec_keypair() == self.spec_keypair(),
    {
        SwarmBuilder { keypair: self.keypair, phantom: core::marker::PhantomData, phase: TcpPhase {
        } }
    }

    /// Chooses the work-stealing executor family.
    pub fn with_tokio(self) -> (r: SwarmBuilder<Tokio, TcpPhase>)
        ensures
            r.spec_keypair() == self.spec_keypair(),
    {
        SwarmBuilder { keypair: self.keypair, phantom: core::marker::PhantomData, phase: TcpPhase {
        } }
    }
}

impl<Provider> SwarmBuilder<Provider, TcpPhase> {
    /// Attaches a TCP transport with the default configuration.
    pub fn with_tcp(self) -> (r: SwarmBuilder<Provider, TcpTlsPhase>)
        ensures
            r.spec_keypair() == self.spec_keypair(),
            r.spec_phase().config == (TcpConfig { nodelay: false }),
    {
        self.with_tcp_config(TcpConfig::default())
    }

    /// Attaches a TCP transport with a given configuration.
    pub fn with_tcp_config(self, config: TcpConfig) -> (r: SwarmBuilder<Provider, TcpTlsPhase>)
        ensures
            r.spec_keypair() == self.spec_keypair(),
            r.spec_phase().config == config,
    {
        SwarmBuilder {
            keypair: self.keypair,
            phantom: core::marker::PhantomData,
            phase: TcpTlsPhase { config },
        }
    }

    /// Skips TCP: the stack starts empty.
    fn without_tcp(self) -> (r: SwarmBuilder<Provider, QuicPhase>)
        ensures
            r.spec_keypair() == self.spec_keypair(),
            r.spec_phase().transport.parts@ == Seq::<TransportDesc>::empty(),
    {
        SwarmBuilder {
            keypair: self.keypair,
            phantom: core::marker::PhantomData,
            phase: QuicPhase { transport: TransportStack { parts: Vec::new(), dns: false } },
        }
    }

    /// Attaches a QUIC transport without TCP.
    pub fn with_quic(self) -> (r: SwarmBuilder<Provider, OtherTransportPhase>)
        ensures
            r.spec_keypair() == self.spec_keypair(),
            r.spec_phase().transport.parts@ == seq![TransportDesc::Quic],
    {
        let r = self.without_tcp().with_quic();
        proof {
            assert(Seq::<TransportDesc>::empty().push(TransportDesc::Quic) =~= seq![
                TransportDesc::Quic,
            ]);
        }
        r
    }

    /// Attaches a WebSocket transport without a separate TCP layer.
    pub fn with_websocket(self) -> (r: SwarmBuilder<Provider, WebsocketTlsPhase<NoRelayBehaviour>>)
        ensures
            r.spec_keypair() == self.spec_keypair(),
            r.spec_phase().transport.parts@ == Seq::<TransportDesc>::empty(),
    {
        self.without_tcp().with_websocket()
    }
}

impl<Provider> SwarmBuilder<Provider, TcpTlsPhase> {
    /// Enables TLS for the TCP layer.
    pub fn with_tls(self) -> (r: SwarmBuilder<Provider, TcpNoisePhase<Tls>>)
        ensures
            r.spec_keypair() == self.spec_keypair(),
            r.spec_phase().config == self.spec_phase().config,
    {
        SwarmBuilder {
            keypair: self.keypair,
            phantom: core::marker::PhantomData,
            phase: TcpNoisePhase { config: self.phase.config, phantom: core::marker::PhantomData },
        }
    }

    /// Skips TLS for the TCP layer.
    fn without_tls(self) -> (r: SwarmBuilder<Provider, TcpNoisePhase<WithoutTls>>)
        ensures
            r.spec_keypair() == self.spec_keypair(),
            r.spec_phase().config == self.spec_phase().config,
    {
        SwarmBuilder {
            keypair: self.keypair,
            phantom: core::marker::PhantomData,
            phase: TcpNoisePhase { config: self.phase.config, phantom: core::marker::PhantomData },
        }
    }

    /// Enables Noise alone for the TCP layer.
    pub fn with_noise(self) -> (r: Result<SwarmBuilder<Provider, QuicPhase>, AuthenticationError>)
        ensures
            r matches Ok(b) && b.spec_keypair() == self.spec_keypair()
                && b.spec_phase().transport.parts@ == seq![
                TransportDesc::Tcp(self.spec_phase().config, SecurityUpgrade::Noise),
            ],
    {
        self.without_tls().with_noise()
    }
}

impl<Provider> SwarmBuilder<Provider, TcpNoisePhase<Tls>> {
    /// Enables Noise beside TLS: the authenticator accepts either.
    pub fn with_noise(self) -> (r: Result<SwarmBuilder<Provider, QuicPhase>, AuthenticationError>)
        ensures
            r matches Ok(b) && b.spec_keypair() == self.spec_keypair()
                && b.spec_phase().transport.parts@ == seq![
                TransportDesc::Tcp(self.spec_phase().config, SecurityUpgrade::TlsOrNoise),
            ],
    {
        let mut parts: Vec<TransportDesc> = Vec::new();
        parts.push(TransportDesc::Tcp(self.phase.config, SecurityUpgrade::TlsOrNoise));
        proof {
            assert(parts@ =~= seq![
                TransportDesc::Tcp(self.spec_phase().config, SecurityUpgrade::TlsOrNoise),
            ]);
        }
        Ok(
            SwarmBuilder {
                keypair: self.keypair,
                phantom: core::marker::PhantomData,
                phase: QuicPhase { transport: TransportStack { parts, dns: false } },
            },
        )
    }

    /// Keeps TLS alone for the TCP layer.
    pub fn without_noise(self) -> (r: Result<
        SwarmBuilder<Provider, QuicPhase>,
        AuthenticationError,
    >)
        ensures
            r matches Ok(b) && b.spec_keypair() == self.spec_keypair()
                && b.spec_phase().transport.parts@ == seq![
                TransportDesc::Tcp(self.spec_phase().config, SecurityUpgrade::Tls),
            ],
    {
        let mut parts: Vec<TransportDesc> = Vec::new();
        parts.push(TransportDesc::Tcp(self.phase.config, SecurityUpgrade::Tls));
        proof {
            assert(parts@ =~= seq![
                TransportDesc::Tcp(self.spec_phase().config, SecurityUpgrade::Tls),
            ]);
        }
        Ok(
            SwarmBuilder {
                keypair: self.keypair,
                phantom: core::marker::PhantomData,
                phase: QuicPhase { transport: TransportStack { parts, dns: false } },
            },
        )
    }
}

impl<Provider> SwarmBuilder<Provider, TcpNoisePhase<WithoutTls>> {
    /// Enables Noise alone for the TCP layer.
    pub fn with_noise(self) -> (r: Result<SwarmBuilder<Provider, QuicPhase>, AuthenticationError>)
        ensures
            r matches Ok(b) && b.spec_keypair() == self.spec_keypair()
                && b.spec_phase().transport.parts@ == seq![
                TransportDesc::Tcp(self.spec_phase().config, SecurityUpgrade::Noise),
            ],
    {
        let mut parts: Vec<TransportDesc> = Vec::new();
        parts.push(TransportDesc::Tcp(self.phase.config, SecurityUpgrade::Noise));
        proof {
            assert(parts@ =~= seq![
                TransportDesc::Tcp(self.spec_phase().config, SecurityUpgrade::Noise),
            ]);
        }
        Ok(
            SwarmBuilder {
                keypair: self.keypair,
                phantom: core::marker::PhantomData,
                phase: QuicPhase { transport: TransportStack { parts, dns: false } },
            },
        )
    }
}

impl<Provider> SwarmBuilder<Provider, QuicPhase> {
    /// Attaches a QUIC transport beside the stack.
    pub fn with_quic(self) -> (r: SwarmBuilder<Provider, OtherTransportPhase>)
        ensures
            r.spec_keypair() == self.spec_keypair(),
            r.spec_phase().transport.parts@ == self.spec_phase().transport.parts@.push(
                TransportDesc::Quic,
            ),
            r.spec_phase().transport.dns == self.spec_phase().transport.dns,
    {
        let TransportStack { mut parts, dns } = self.phase.transport;
        parts.push(TransportDesc::Quic);
        SwarmBuilder {
            keypair: self.keypair,
            phantom: core::marker::PhantomData,
            phase: OtherTransportPhase { transport: TransportStack { parts, dns } },
        }
    }

    /// Skips QUIC.
    fn without_quic(self) -> (r: SwarmBuilder<Provider, OtherTransportPhase>)
        ensures
            r.spec_keypair() == self.spec_keypair(),
            r.spec_phase().transport == self.spec_phase().transport,
    {
        SwarmBuilder {
            keypair: self.keypair,
            phantom: core::marker::PhantomData,
            phase: OtherTransportPhase { transport: self.phase.transport },
        }
    }

    /// Attaches a user-supplied transport beside the stack.
    pub fn with_other_transport<T: AuthenticatedMultiplexedTransport, F: FnOnce(Keypair) -> T>(
        self,
        constructor: F,
    ) -> (r: SwarmBuilder<Provider, OtherTransportPhase>)
        requires
            forall|k: Keypair| #[trigger] call_requires(constructor, (k,)),
        ensures
            r.spec_keypair() == self.spec_keypair(),
            exists|t: T|
                #[trigger] call_ensures(constructor, (self.spec_keypair(),), t) && r.spec_phase()
                    .transport.parts@ == self.spec_phase().transport.parts@.push(t.spec_desc()),
    {
        self.without_quic().with_other_transport(constructor)
    }

    /// Attaches a relay client.
    pub fn with_relay(self) -> (r: SwarmBuilder<Provider, RelayTlsPhase>)
        ensures
            r.spec_keypair() == self.spec_keypair(),
            r.spec_phase().transport == self.spec_phase().transport,
    {
        self.without_quic().without_any_other_transports().without_dns().with_relay()
    }

    /// Attaches a WebSocket transport.
    pub fn with_websocket(self) -> (r: SwarmBuilder<Provider, WebsocketTlsPhase<NoRelayBehaviour>>)
        ensures
            r.spec_keypair() == self.spec_keypair(),
            r.spec_phase().transport == self.spec_phase().transport,
    {
        self.without_quic().without_any_other_transports().without_dns().without_relay()
            .with_websocket()
    }

    /// Wraps the stack in the system name resolver.
    pub fn with_dns(self) -> (r: Result<SwarmBuilder<Provider, RelayPhase>, DnsError>)
        ensures
            r matches Ok(b) && b.spec_keypair() == self.spec_keypair() && b.spec_phase().transport
                .parts@ == self.spec_phase().transport.parts@ && b.spec_phase().transport.dns
                == true,
    {
        self.without_quic().without_any_other_transports().with_dns()
    }

    /// Supplies the root behaviour.
    pub fn with_behaviour<B, R: TryIntoBehaviour<B>, F: FnOnce(Keypair) -> R>(
        self,
        constructor: F,
    ) -> (r: Result<SwarmBuilder<Provider, BuildPhase<B>>, R::Error>)
        requires
            forall|k: Keypair| #[trigger] call_requires(constructor, (k,)),
        ensures
            r matches Ok(b) ==> b.spec_keypair() == self.spec_keypair() && b.spec_phase().transport
                == self.spec_phase().transport,
            exists|q: R|
                {
                    &&& #[trigger] call_ensures(constructor, (self.spec_keypair(),), q)
                    &&& match q.conversion_spec() {
                        Ok(behaviour) => r matches Ok(b) && b.spec_phase().behaviour == behaviour,
                        Err(e) => r matches Err(e2) && e2 == e,
                    }
                },
    {
        self.without_quic().without_any_other_transports().without_dns().without_relay()
            .without_websocket().with_behaviour(constructor)
    }
}

impl<Provider> SwarmBuilder<Provider, OtherTransportPhase> {
    /// Attaches a user-supplied transport beside the stack.
    pub fn with_other_transport<T: AuthenticatedMultiplexedTransport, F: FnOnce(Keypair) -> T>(
        self,
        constructor: F,
    ) -> (r: SwarmBuilder<Provider, OtherTransportPhase>)
        requires
            forall|k: Keypair| #[trigger] call_requires(constructor, (k,)),
        ensures
            r.spec_keypair() == self.spec_keypair(),
            exists|t: T|
                #[trigger] call_ensures(constructor, (self.spec_keypair(),), t) && r.spec_phase()
                    .transport.parts@ == self.spec_phase().transport.parts@.push(t.spec_desc()),
    {
        let ghost orig = self;
        let built = constructor(self.keypair);
        let desc = built.descriptor();
        let TransportStack { mut parts, dns } = self.phase.transport;
        parts.push(desc);
        let result = SwarmBuilder {
            keypair: self.keypair,
            phantom: core::marker::PhantomData,
            phase: OtherTransportPhase { transport: TransportStack { parts, dns } },
        };
        proof {
            assert(call_ensures(constructor, (orig.spec_keypair(),), built)
                && result.spec_phase().transport.parts@ == orig.spec_phase().transport.parts@.push(
                built.spec_desc(),
            ));
        }
        result
    }

    /// Moves on: no further transports.
    fn without_any_other_transports(self) -> (r: SwarmBuilder<Provider, DnsPhase>)
        ensures
            r.spec_keypair() == self.spec_keypair(),
            r.spec_phase().transport == self.spec_phase().transport,
    {
        SwarmBuilder {
            keypair: self.keypair,
            phantom: core::marker::PhantomData,
            phase: DnsPhase { transport: self.phase.transport },
        }
    }

    /// Wraps the stack in the system name resolver.
    pub fn with_dns(self) -> (r: Result<SwarmBuilder<Provider, RelayPhase>, DnsError>)
        ensures
            r matches Ok(b) && b.spec_keypair() == self.spec_keypair() && b.spec_phase().transport
                .parts@ == self.spec_phase().transport.parts@ && b.spec_phase().transport.dns
                == true,
    {
        self.without_any_other_transports().with_dns()
    }

    /// Attaches a relay client.
    pub fn with_relay(self) -> (r: SwarmBuilder<Provider, RelayTlsPhase>)
        ensures
            r.spec_keypair() == self.spec_keypair(),
            r.spec_phase().transport == self.spec_phase().transport,
    {
        self.without_any_other_transports().without_dns().with_relay()
    }

    /// Supplies the root behaviour.
    pub fn with_behaviour<B, R: TryIntoBehaviour<B>, F: FnOnce(Keypair) -> R>(
        self,
        constructor: F,
    ) -> (r: Result<SwarmBuilder<Provider, BuildPhase<B>>, R::Error>)
        requires
            forall|k: Keypair| #[trigger] call_requires(constructor, (k,)),
        ensures
            r matches Ok(b) ==> b.spec_keypair() == self.spec_keypair() && b.spec_phase().transport
                == self.spec_phase().transport,
            exists|q: R|
                {
                    &&& #[trigger] call_ensures(constructor, (self.spec_keypair(),), q)
                    &&& match q.conversion_spec() {
                        Ok(behaviour) => r matches Ok(b) && b.spec_phase().behaviour == behaviour,
                        Err(e) => r matches Err(e2) && e2 == e,
                    }
                },
    {
        self.without_any_other_transports().without_dns().without_relay().without_websocket()
            .with_behaviour(constructor)
    }
}

impl<Provider> SwarmBuilder<Provider, DnsPhase> {
    /// Wraps the stack in the system name resolver.
    pub fn with_dns(self) -> (r: Result<SwarmBuilder<Provider, RelayPhase>, DnsError>)
        ensures
            r matches Ok(b) && b.spec_keypair() == self.spec_keypair() && b.spec_phase().transport
                .parts@ == self.spec_phase().transport.parts@ && b.spec_phase().transport.dns
                == true,
    {
        let TransportStack { parts, dns: _ } = self.phase.transport;
        Ok(
            SwarmBuilder {
                keypair: self.keypair,
                phantom: core::marker::PhantomData,
                phase: RelayPhase { transport: TransportStack { parts, dns: true } },
            },
        )
    }

    /// Skips name resolution.
    fn without_dns(self) -> (r: SwarmBuilder<Provider, RelayPhase>)
        ensures
            r.spec_keypair() == self.spec_keypair(),
            r.spec_phase().transport == self.spec_phase().transport,
    {
        SwarmBuilder {
            keypair: self.keypair,
            phantom: core::marker::PhantomData,
            phase: RelayPhase { transport: self.phase.transport },
        }
    }

    /// Supplies the root behaviour.
    pub fn with_behaviour<B, R: TryIntoBehaviour<B>, F: FnOnce(Keypair) -> R>(
        self,
        constructor: F,
    ) -> (r: Result<SwarmBuilder<Provider, BuildPhase<B>>, R::Error>)
        requires
            forall|k: Keypair| #[trigger] call_requires(constructor, (k,)),
        ensures
            r matches Ok(b) ==> b.spec_keypair() == self.spec_keypair() && b.spec_phase().transport
                == self.spec_phase().transport,
            exists|q: R|
                {
                    &&& #[trigger] call_ensures(constructor, (self.spec_keypair(),), q)
                    &&& match q.conversion_spec() {
                        Ok(behaviour) => r matches Ok(b) && b.spec_phase().behaviour == behaviour,
                        Err(e) => r matches Err(e2) && e2 == e,
                    }
                },
    {
        self.without_dns().without_relay().without_websocket().with_behaviour(constructor)
    }
}

impl<Provider> SwarmBuilder<Provider, RelayPhase> {
    /// Attaches a relay client: its security is chosen next.
    pub fn with_relay(self) -> (r: SwarmBuilder<Provider, RelayTlsPhase>)
        ensures
            r.spec_keypair() == self.spec_keypair(),
            r.spec_phase().transport == self.spec_phase().transport,
    {
        SwarmBuilder {
            keypair: self.keypair,
            phantom: core::marker::PhantomData,
            phase: RelayTlsPhase { transport: self.phase.transport },
        }
    }

    /// Skips the relay client.
    fn without_relay(self) -> (r: SwarmBuilder<Provider, WebsocketPhase<NoRelayBehaviour>>)
        ensures
            r.spec_keypair() == self.spec_keypair(),
            r.spec_phase().transport == self.spec_phase().transport,
    {
        SwarmBuilder {
            keypair: self.keypair,
            phantom: core::marker::PhantomData,
            phase: WebsocketPhase {
                transport: self.phase.transport,
                relay_behaviour: NoRelayBehaviour,
            },
        }
    }

    /// Attaches a WebSocket transport.
    pub fn with_websocket(self) -> (r: SwarmBuilder<Provider, WebsocketTlsPhase<NoRelayBehaviour>>)
        ensures
            r.spec_keypair() == self.spec_keypair(),
            r.spec_phase().transport == self.spec_phase().transport,
    {
        self.without_relay().with_websocket()
    }

    /// Supplies the root behaviour.
    pub fn with_behaviour<B, R: TryIntoBehaviour<B>, F: FnOnce(Keypair) -> R>(
        self,
        constructor: F,
    ) -> (r: Result<SwarmBuilder<Provider, BuildPhase<B>>, R::Error>)
        requires
            forall|k: Keypair| #[trigger] call_requires(constructor, (k,)),
        ensures
            r matches Ok(b) ==> b.spec_keypair() == self.spec_keypair() && b.spec_phase().transport
                == self.spec_phase().transport,
            exists|q: R|
                {
                    &&& #[trigger] call_ensures(constructor, (self.spec_keypair(),), q)
                    &&& match q.conversion_spec() {
                        Ok(behaviour) => r matches Ok(b) && b.spec_phase().behaviour == behaviour,
                        Err(e) => r matches Err(e2) && e2 == e,
                    }
                },
    {
        self.without_relay().without_websocket().with_behaviour(constructor)
    }
}

impl<Provider> SwarmBuilder<Provider, RelayTlsPhase> {
    /// Enables TLS for the relay leg.
    pub fn with_tls(self) -> (r: SwarmBuilder<Provider, RelayNoisePhase<Tls>>)
        ensures
            r.spec_keypair() == self.spec_keypair(),
            r.spec_phase().transport == self.spec_phase().transport,
    {
        SwarmBuilder {
            keypair: self.keypair,
            phantom: core::marker::PhantomData,
            phase: RelayNoisePhase {
                transport: self.phase.transport,
                phantom: core::marker::PhantomData,
            },
        }
    }

    /// Skips TLS for the relay leg.
    fn without_tls(self) -> (r: SwarmBuilder<Provider, RelayNoisePhase<WithoutTls>>)
        ensures
            r.spec_keypair() == self.spec_keypair(),
            r.spec_phase().transport == self.spec_phase().transport,
    {
        SwarmBuilder {
            keypair: self.keypair,
            phantom: core::marker::PhantomData,
            phase: RelayNoisePhase {
                transport: self.phase.transport,
                phantom: core::marker::PhantomData,
            },
        }
    }

    /// Enables Noise alone for the relay leg.
    pub fn with_noise(self) -> (r: Result<
        SwarmBuilder<Provider, WebsocketPhase<RelayClientBehaviour>>,
        AuthenticationError,
    >)
        ensures
            r matches Ok(b) && b.spec_keypair() == self.spec_keypair()
                && b.spec_phase().transport.parts@ == self.spec_phase().transport.parts@.push(
                TransportDesc::Relay(SecurityUpgrade::Noise),
            ) && b.spec_phase().relay_behaviour.local_peer_id == self.spec_keypair().spec_public(
            ).spec_peer_id(),
    {
        self.without_tls().with_noise()
    }
}

impl<Provider> SwarmBuilder<Provider, RelayNoisePhase<Tls>> {
    /// Enables Noise beside TLS for the relay leg.
    pub fn with_noise(self) -> (r: Result<
        SwarmBuilder<Provider, WebsocketPhase<RelayClientBehaviour>>,
        AuthenticationError,
    >)
        ensures
            r matches Ok(b) && b.spec_keypair() == self.spec_keypair()
                && b.spec_phase().transport.parts@ == self.spec_phase().transport.parts@.push(
                TransportDesc::Relay(SecurityUpgrade::TlsOrNoise),
            ) && b.spec_phase().relay_behaviour.local_peer_id == self.spec_keypair().spec_public(
            ).spec_peer_id(),
    {
        let relay_behaviour = RelayClientBehaviour {
            local_peer_id: self.keypair.public().to_peer_id(),
        };
        let TransportStack { mut parts, dns } = self.phase.transport;
        parts.push(TransportDesc::Relay(SecurityUpgrade::TlsOrNoise));
        Ok(
            SwarmBuilder {
                keypair: self.keypair,
                phantom: core::marker::PhantomData,
                phase: WebsocketPhase { transport: TransportStack { parts, dns }, relay_behaviour },
            },
        )
    }

    /// Keeps TLS alone for the relay leg.
    pub fn without_noise(self) -> (r: Result<
        SwarmBuilder<Provider, WebsocketPhase<RelayClientBehaviour>>,
        AuthenticationError,
    >)
        ensures
            r matches Ok(b) && b.spec_keypair() == self.spec_keypair()
                && b.spec_phase().transport.parts@ == self.spec_phase().transport.parts@.push(
                TransportDesc::Relay(SecurityUpgrade::Tls),
            ) && b.spec_phase().relay_behaviour.local_peer_id == self.spec_keypair().spec_public(
            ).spec_peer_id(),
    {
        let relay_behaviour = RelayClientBehaviour {
            local_peer_id: self.keypair.public().to_peer_id(),
        };
        let TransportStack { mut parts, dns } = self.phase.transport;
        parts.push(TransportDesc::Relay(SecurityUpgrade::Tls));
        Ok(
            SwarmBuilder {
                keypair: self.keypair,
                phantom: core::marker::PhantomData,
                phase: WebsocketPhase { transport: TransportStack { parts, dns }, relay_behaviour },
            },
        )
    }
}

impl<Provider> SwarmBuilder<Provider, RelayNoisePhase<WithoutTls>> {
    /// Enables Noise alone for the relay leg.
    pub fn with_noise(self) -> (r: Result<
        SwarmBuilder<Provider, WebsocketPhase<RelayClientBehaviour>>,
        AuthenticationError,
    >)
        ensures
            r matches Ok(b) && b.spec_keypair() == self.spec_keypair()
                && b.spec_phase().transport.parts@ == self.spec_phase().transport.parts@.push(
                TransportDesc::Relay(SecurityUpgrade::Noise),
            ) && b.spec_phase().relay_behaviour.local_peer_id == self.spec_keypair().spec_public(
            ).spec_peer_id(),
    {
        let relay_behaviour = RelayClientBehaviour {
            local_peer_id: self.keypair.public().to_peer_id(),
        };
        let TransportStack { mut parts, dns } = self.phase.transport;
        parts.push(TransportDesc::Relay(SecurityUpgrade::Noise));
        Ok(
            SwarmBuilder {
                keypair: self.keypair,
                phantom: core::marker::PhantomData,
                phase: WebsocketPhase { transport: TransportStack { parts, dns }, relay_behaviour },
            },
        )
    }
}

impl<Provider, R> SwarmBuilder<Provider, WebsocketPhase<R>> {
    /// Attaches a WebSocket transport: its security is chosen next.
    pub fn with_websocket(self) -> (r: SwarmBuilder<Provider, WebsocketTlsPhase<R>>)
        ensures
            r.spec_keypair() == self.spec_keypair(),
            r.spec_phase().transport == self.spec_phase().transport,
            r.spec_phase().relay_behaviour == self.spec_phase().relay_behaviour,
    {
        SwarmBuilder {
            keypair: self.keypair,
            phantom: core::marker::PhantomData,
            phase: WebsocketTlsPhase {
                transport: self.phase.transport,
                relay_behaviour: self.phase.relay_behaviour,
            },
        }
    }

    /// Skips the WebSocket transport: the stack is finished.
    fn without_websocket(self) -> (r: SwarmBuilder<Provider, BehaviourPhase<R>>)
        ensures
            r.spec_keypair() == self.spec_keypair(),
            r.spec_phase().transport == self.spec_phase().transport,
            r.spec_phase().relay_behaviour == self.spec_phase().relay_behaviour,
    {
        SwarmBuilder {
            keypair: self.keypair,
            phantom: core::marker::PhantomData,
            phase: BehaviourPhase {
                relay_behaviour: self.phase.relay_behaviour,
                transport: self.phase.transport,
            },
        }
    }
}

impl<Provider> SwarmBuilder<Provider, WebsocketPhase<NoRelayBehaviour>> {
    /// Supplies the root behaviour.
    pub fn with_behaviour<B, R: TryIntoBehaviour<B>, F: FnOnce(Keypair) -> R>(
        self,
        constructor: F,
    ) -> (r: Result<SwarmBuilder<Provider, BuildPhase<B>>, R::Error>)
        requires
            forall|k: Keypair| #[trigger] call_requires(constructor, (k,)),
        ensures
            r matches Ok(b) ==> b.spec_keypair() == self.spec_keypair() && b.spec_phase().transport
                == self.spec_phase().transport,
            exists|q: R|
                {
                    &&& #[trigger] call_ensures(constructor, (self.spec_keypair(),), q)
                    &&& match q.conversion_spec() {
                        Ok(behaviour) => r matches Ok(b) && b.spec_phase().behaviour == behaviour,
                        Err(e) => r matches Err(e2) && e2 == e,
                    }
                },
    {
        self.without_websocket().with_behaviour(constructor)
    }
}

impl<Provider> SwarmBuilder<Provider, WebsocketPhase<RelayClientBehaviour>> {
    /// Supplies the root behaviour, handing it the relay client to embed.
    pub fn with_behaviour<
        B,
        R: TryIntoBehaviour<B>,
        F: FnOnce(Keypair, RelayClientBehaviour) -> R,
    >(self, constructor: F) -> (r: Result<SwarmBuilder<Provider, BuildPhase<B>>, R::Error>)
        requires
            forall|k: Keypair, c: RelayClientBehaviour|
                #[trigger] call_requires(constructor, (k, c)),
        ensures
            r matches Ok(b) ==> b.spec_keypair() == self.spec_keypair() && b.spec_phase().transport
                == self.spec_phase().transport,
            exists|q: R|
                {
                    &&& #[trigger] call_ensures(
                        constructor,
                        (self.spec_keypair(), self.spec_phase().relay_behaviour),
                        q,
                    )
                    &&& match q.conversion_spec() {
                        Ok(behaviour) => r matches Ok(b) && b.spec_phase().behaviour == behaviour,
                        Err(e) => r matches Err(e2) && e2 == e,
                    }
                },
    {
        self.without_websocket().with_behaviour(constructor)
    }
}

impl<Provider, R> SwarmBuilder<Provider, WebsocketTlsPhase<R>> {
    /// Enables TLS for the WebSocket layer.
    pub fn with_tls(self) -> (r: SwarmBuilder<Provider, WebsocketNoisePhase<R, Tls>>)
        ensures
            r.spec_keypair() == self.spec_keypair(),
            r.spec_phase().transport == self.spec_phase().transport,
            r.spec_phase().relay_behaviour == self.spec_phase().relay_behaviour,
    {
        SwarmBuilder {
            keypair: self.keypair,
            phantom: core::marker::PhantomData,
            phase: WebsocketNoisePhase {
                transport: self.phase.transport,
                relay_behaviour: self.phase.relay_behaviour,
                phantom: core::marker::PhantomData,
            },
        }
    }

    /// Skips TLS for the WebSocket layer.
    fn without_tls(self) -> (r: SwarmBuilder<Provider, WebsocketNoisePhase<R, WithoutTls>>)
        ensures
            r.spec_keypair() == self.spec_keypair(),
            r.spec_phase().transport == self.spec_phase().transport,
            r.spec_phase().relay_behaviour == self.spec_phase().relay_behaviour,
    {
        SwarmBuilder {
            keypair: self.keypair,
            phantom: core::marker::PhantomData,
            phase: WebsocketNoisePhase {
                transport: self.phase.transport,
                relay_behaviour: self.phase.relay_behaviour,
                phantom: core::marker::PhantomData,
            },
        }
    }

    /// Enables Noise alone for the WebSocket layer.
    pub fn with_noise(self) -> (r: Result<
        SwarmBuilder<Provider, BehaviourPhase<R>>,
        WebsocketError,
    >)
        ensures
            r matches Ok(b) && b.spec_keypair() == self.spec_keypair()
                && b.spec_phase().transport.parts@ == self.spec_phase().transport.parts@.push(
                TransportDesc::Websocket(SecurityUpgrade::Noise),
            ) && b.spec_phase().relay_behaviour == self.spec_phase().relay_behaviour,
    {
        self.without_tls().with_noise()
    }
}

impl<Provider, R> SwarmBuilder<Provider, WebsocketNoisePhase<R, Tls>> {
    /// Enables Noise beside TLS for the WebSocket layer.
    pub fn with_noise(self) -> (r: Result<
        SwarmBuilder<Provider, BehaviourPhase<R>>,
        WebsocketError,
    >)
        ensures
            r matches Ok(b) && b.spec_keypair() == self.spec_keypair()
                && b.spec_phase().transport.parts@ == self.spec_phase().transport.parts@.push(
                TransportDesc::Websocket(SecurityUpgrade::TlsOrNoise),
            ) && b.spec_phase().relay_behaviour == self.spec_phase().relay_behaviour,
    {
        let TransportStack { mut parts, dns } = self.phase.transport;
        parts.push(TransportDesc::Websocket(SecurityUpgrade::TlsOrNoise));
        Ok(
            SwarmBuilder {
                keypair: self.keypair,
                phantom: core::marker::PhantomData,
                phase: BehaviourPhase {
                    relay_behaviour: self.phase.relay_behaviour,
                    transport: TransportStack { parts, dns },
                },
            },
        )
    }

    /// Keeps TLS alone for the WebSocket layer.
    pub fn without_noise(self) -> (r: Result<
        SwarmBuilder<Provider, BehaviourPhase<R>>,
        WebsocketError,
    >)
        ensures
            r matches Ok(b) && b.spec_keypair() == self.spec_keypair()
                && b.spec_phase().transport.parts@ == self.spec_phase().transport.parts@.push(
                TransportDesc::Websocket(SecurityUpgrade::Tls),
            ) && b.spec_phase().relay_behaviour == self.spec_phase().relay_behaviour,
    {
        let TransportStack { mut parts, dns } = self.phase.transport;
        parts.push(TransportDesc::Websocket(SecurityUpgrade::Tls));
        Ok(
            SwarmBuilder {
                keypair: self.keypair,
                phantom: core::marker::PhantomData,
                phase: BehaviourPhase {
                    relay_behaviour: self.phase.relay_behaviour,
                    transport: TransportStack { parts, dns },
                },
            },
        )
    }
}

impl<Provider, R> SwarmBuilder<Provider, WebsocketNoisePhase<R, WithoutTls>> {
    /// Enables Noise alone for the WebSocket layer.
    pub fn with_noise(self) -> (r: Result<
        SwarmBuilder<Provider, BehaviourPhase<R>>,
        WebsocketError,
    >)
        ensures
            r matches Ok(b) && b.spec_keypair() == self.spec_keypair()
                && b.spec_phase().transport.parts@ == self.spec_phase().transport.parts@.push(
                TransportDesc::Websocket(SecurityUpgrade::Noise),
            ) && b.spec_phase().relay_behaviour == self.spec_phase().relay_behaviour,
    {
        let TransportStack { mut parts, dns } = self.phase.transport;
        parts.push(TransportDesc::Websocket(SecurityUpgrade::Noise));
        Ok(
            SwarmBuilder {
                keypair: self.keypair,
                phantom: core::marker::PhantomData,
                phase: BehaviourPhase {
                    relay_behaviour: self.phase.relay_behaviour,
                    transport: TransportStack { parts, dns },
                },
            },
        )
    }
}

impl<Provider> SwarmBuilder<Provider, BehaviourPhase<NoRelayBehaviour>> {
    /// Supplies the root behaviour.
    pub fn with_behaviour<B, R: TryIntoBehaviour<B>, F: FnOnce(Keypair) -> R>(
        self,
        constructor: F,
    ) -> (r: Result<SwarmBuilder<Provider, BuildPhase<B>>, R::Error>)
        requires
            forall|k: Keypair| #[trigger] call_requires(constructor, (k,)),
        ensures
            r matches Ok(b) ==> b.spec_keypair() == self.spec_keypair() && b.spec_phase().transport
                == self.spec_phase().transport,
            exists|q: R|
                {
                    &&& #[trigger] call_ensures(constructor, (self.spec_keypair(),), q)
                    &&& match q.conversion_spec() {
                        Ok(behaviour) => r matches Ok(b) && b.spec_phase().behaviour == behaviour,
                        Err(e) => r matches Err(e2) && e2 == e,
                    }
                },
    {
        let ghost orig = self;
        let built = constructor(self.keypair);
        let ghost builtg = built;
        let converted = built.try_into_behaviour();
        match converted {
            Ok(behaviour) => {
                let ghost bg = behaviour;
                let result = SwarmBuilder {
                    keypair: self.keypair,
                    phantom: core::marker::PhantomData,
                    phase: BuildPhase { behaviour, transport: self.phase.transport },
                };
                proof {
                    assert(call_ensures(constructor, (orig.spec_keypair(),), builtg));
                    assert(builtg.conversion_spec() == Ok::<B, R::Error>(bg));
                    assert(result.spec_phase().behaviour == bg);
                }
                Ok(result)
            },
            Err(e) => {
                let ghost eg = e;
                proof {
                    assert(call_ensures(constructor, (orig.spec_keypair(),), builtg));
                    assert(builtg.conversion_spec() == Err::<B, R::Error>(eg));
                }
                Err(e)
            },
        }
    }
}

impl<Provider> SwarmBuilder<Provider, BehaviourPhase<RelayClientBehaviour>> {
    /// Supplies the root behaviour, handing it the relay client to embed.
    pub fn with_behaviour<
        B,
        R: TryIntoBehaviour<B>,
        F: FnOnce(Keypair, RelayClientBehaviour) -> R,
    >(self, constructor: F) -> (r: Result<SwarmBuilder<Provider, BuildPhase<B>>, R::Error>)
        requires
            forall|k: Keypair, c: RelayClientBehaviour|
                #[trigger] call_requires(constructor, (k, c)),
        ensures
            r matches Ok(b) ==> b.spec_keypair() == self.spec_keypair() && b.spec_phase().transport
                == self.spec_phase().transport,
            exists|q: R|
                {
                    &&& #[trigger] call_ensures(
                        constructor,
                        (self.spec_keypair(), self.spec_phase().relay_behaviour),
                        q,
                    )
                    &&& match q.conversion_spec() {
                        Ok(behaviour) => r matches Ok(b) && b.spec_phase().behaviour == behaviour,
                        Err(e) => r matches Err(e2) && e2 == e,
                    }
                },
    {
        let ghost orig = self;
        let built = constructor(self.keypair, self.phase.relay_behaviour);
        let ghost builtg = built;
        let converted = built.try_into_behaviour();
        match converted {
            Ok(behaviour) => {
                let ghost bg = behaviour;
                let result = SwarmBuilder {
                    keypair: self.keypair,
                    phantom: core::marker::PhantomData,
                    phase: BuildPhase { behaviour, transport: self.phase.transport },
                };
                proof {
                    assert(call_ensures(
                        constructor,
                        (orig.spec_keypair(), orig.spec_phase().relay_behaviour),
                        builtg,
                    ));
                    assert(builtg.conversion_spec() == Ok::<B, R::Error>(bg));
                    assert(result.spec_phase().behaviour == bg);
                }
                Ok(result)
            },
            Err(e) => {
                let ghost eg = e;
                proof {
                    assert(call_ensures(
                        constructor,
                        (orig.spec_keypair(), orig.spec_phase().relay_behaviour),
                        builtg,
                    ));
                    assert(builtg.conversion_spec() == Err::<B, R::Error>(eg));
                }
                Err(e)
            },
        }
    }
}

impl<Provider, B: NetworkBehaviour> SwarmBuilder<Provider, BuildPhase<B>> {
    /// Freezes the stack and the behaviour and produces the swarm, keyed
    /// by the identity chosen first.
    pub fn build(self) -> (r: Swarm<B>)
        ensures
            r.wf(),
            r.spec_behaviour() == self.spec_phase().behaviour,
            r.spec_local_peer_id() == self.spec_keypair().spec_public().spec_peer_id(),
            r.spec_transport() == self.spec_phase().transport.parts@,
            r.history() == Seq::<crate::swarm::Record>::empty(),
    {
        let peer = self.keypair.public().to_peer_id();
        Swarm::new(self.phase.behaviour, self.phase.transport, peer)
    }
}

} // verus!
