//! Core of a modular peer-to-peer networking stack: the typed, phased
//! builder that assembles a transport stack, the behaviour contract that
//! application protocols implement, and the swarm runtime bookkeeping that
//! mediates between the two.

use vstd::prelude::*;

mod behaviour;
mod builder;
pub mod dummy;
mod connection;
mod external_addresses;
mod identity;
mod interop;
mod ids;
mod multiaddr;
mod swarm;

pub use builder::AsyncStd;
pub use builder::AuthenticatedMultiplexedTransport;
pub use builder::AuthenticationError;
pub use builder::BehaviourPhase;
pub use builder::BuildPhase;
pub use builder::DnsError;
pub use builder::DnsPhase;
pub use builder::DummyTransport;
pub use builder::InitialPhase;
pub use builder::NoBehaviourError;
pub use builder::NoProviderSpecified;
pub use builder::NoRelayBehaviour;
pub use builder::OtherTransportPhase;
pub use builder::ProviderPhase;
pub use builder::QuicPhase;
pub use builder::RelayClientBehaviour;
pub use builder::RelayNoisePhase;
pub use builder::RelayPhase;
pub use builder::RelayTlsPhase;
pub use builder::SecurityUpgrade;
pub use builder::SwarmBuilder;
pub use builder::TcpConfig;
pub use builder::TcpNoisePhase;
pub use builder::TcpPhase;
pub use builder::TcpTlsPhase;
pub use builder::Tls;
pub use builder::Tokio;
pub use builder::TransportDesc;
pub use builder::TransportStack;
pub use builder::TryIntoBehaviour;
pub use builder::WebsocketError;
pub use builder::WebsocketNoisePhase;
pub use builder::WebsocketPhase;
pub use builder::WebsocketTlsPhase;
pub use builder::WithoutTls;
pub use behaviour::AddressChange;
pub use behaviour::CloseConnection;
pub use behaviour::ConnectionClosed;
pub use behaviour::ConnectionEstablished;
pub use behaviour::ConnectionHandler;
pub use behaviour::DialFailure;
pub use behaviour::ExpiredListenAddr;
pub use behaviour::ExternalAddrConfirmed;
pub use behaviour::ExternalAddrExpired;
pub use behaviour::FromSwarm;
pub use behaviour::HandlerAction;
pub use behaviour::ListenFailure;
pub use behaviour::ListenerClosed;
pub use behaviour::ListenerError;
pub use behaviour::NetworkBehaviour;
pub use behaviour::NewExternalAddrCandidate;
pub use behaviour::NewListenAddr;
pub use behaviour::NewListener;
pub use behaviour::NotifyHandler;
pub use behaviour::ToSwarm;
pub use connection::ConnectedPoint;
pub use connection::ConnectionDenied;
pub use connection::DialError;
pub use connection::DialOpts;
pub use connection::Endpoint;
pub use connection::ListenError;
pub use connection::ListenOpts;
pub use connection::PortUse;
pub use connection::SpecConnectedPoint;
pub use connection::TransportError;
pub use external_addresses::candidate_step;
pub use external_addresses::confirm_step;
pub use external_addresses::expire_step;
pub use external_addresses::lemma_confirmed_requires_candidacy;
pub use external_addresses::ExternalAddresses;
pub use interop::expect_muxer_yamux;
pub use interop::listen_addr;
pub use interop::parse_muxer;
pub use interop::parse_sec_protocol;
pub use interop::plan_transport;
pub use interop::ConfigError;
pub use interop::Muxer;
pub use interop::SecProtocol;
pub use interop::Transport;
pub use identity::Keypair;
pub use identity::PeerId;
pub use identity::PublicKey;
pub use ids::ConnectionId;
pub use ids::ListenerId;
pub use swarm::closed_at;
pub use swarm::est_at;
pub use swarm::handler_at;
pub use swarm::holds_pending;
pub use swarm::lemma_closed_paired;
pub use swarm::lemma_wf_hist_push_closed;
pub use swarm::lemma_wf_hist_push_established;
pub use swarm::lemma_wf_hist_push_handler;
pub use swarm::wf_hist;
pub use swarm::lemma_closed_unique;
pub use swarm::lemma_established_unique;
pub use swarm::lemma_handler_event_in_lifetime;
pub use swarm::advanced_at;
pub use swarm::Connection;
pub use swarm::DialResolution;
pub use swarm::IncomingResolution;
pub use swarm::PendingDial;
pub use swarm::Record;
pub use swarm::Swarm;
pub use swarm::SwarmEvent;
pub use multiaddr::Component;
pub use multiaddr::Multiaddr;
pub use multiaddr::SpecComponent;
pub use multiaddr::SpecMultiaddr;

verus! {

} // verus!
