//! The address grammar, the interop configuration rules, the external
//! address sets and the swarm bookkeeping, on concrete values.

use swarm_core::dummy;
use swarm_core::expect_muxer_yamux;
use swarm_core::listen_addr;
use swarm_core::parse_muxer;
use swarm_core::parse_sec_protocol;
use swarm_core::plan_transport;
use swarm_core::CloseConnection;
use swarm_core::Component;
use swarm_core::ConfigError;
use swarm_core::ConnectionId;
use swarm_core::DialError;
use swarm_core::DialOpts;
use swarm_core::DialResolution;
use swarm_core::Endpoint;
use swarm_core::ExternalAddresses;
use swarm_core::Keypair;
use swarm_core::Multiaddr;
use swarm_core::Muxer;
use swarm_core::NotifyHandler;
use swarm_core::PeerId;
use swarm_core::PortUse;
use swarm_core::SecProtocol;
use swarm_core::SecurityUpgrade;
use swarm_core::Swarm;
use swarm_core::ToSwarm;
use swarm_core::Transport;
use swarm_core::TcpConfig;
use swarm_core::TransportDesc;

#[test]
fn multiaddr_round_trip_tcp() {
    let text = b"/ip4/127.0.0.1/tcp/4001".to_vec();
    let m = Multiaddr::parse_bytes(&text).unwrap();
    assert_eq!(m.len(), 2);
    assert_eq!(m.to_bytes(), text);
}

#[test]
fn multiaddr_round_trip_quic() {
    let text = b"/ip4/10.0.0.7/udp/0/quic-v1".to_vec();
    let m = Multiaddr::parse_bytes(&text).unwrap();
    assert_eq!(m.len(), 3);
    assert_eq!(m.to_bytes(), text);
}

#[test]
fn multiaddr_round_trip_dns_ws_p2p() {
    let text = b"/dns4/example.com/tcp/443/wss/p2p/12D3KooWabc".to_vec();
    let m = Multiaddr::parse_bytes(&text).unwrap();
    assert_eq!(m.len(), 4);
    assert_eq!(m.to_bytes(), text);
}

#[test]
fn multiaddr_round_trip_ip6_webtransport() {
    let text = b"/ip6/::1/udp/1/quic/webtransport".to_vec();
    let m = Multiaddr::parse_bytes(&text).unwrap();
    assert_eq!(m.to_bytes(), text);
}

#[test]
fn multiaddr_unknown_suffix_kept_verbatim() {
    let text = b"/ip4/1.2.3.4/udp/5/sctp/6".to_vec();
    let m = Multiaddr::parse_bytes(&text).unwrap();
    assert_eq!(m.len(), 2);
    assert_eq!(m.to_bytes(), text);
}

#[test]
fn multiaddr_rejects_bad_forms() {
    assert!(Multiaddr::parse_bytes(b"/ip4/256.0.0.1/tcp/1").is_none());
    assert!(Multiaddr::parse_bytes(b"/ip4/1.2.3/tcp/1").is_none());
    assert!(Multiaddr::parse_bytes(b"/tcp/65536").is_none());
    assert!(Multiaddr::parse_bytes(b"/tcp/007").is_none());
    assert!(Multiaddr::parse_bytes(b"/tcp").is_none());
    assert!(Multiaddr::parse_bytes(b"//tcp/1").is_none());
    assert!(Multiaddr::parse_bytes(b"ip4/1.2.3.4").is_none());
}

#[test]
fn multiaddr_empty_input_is_empty_address() {
    let m = Multiaddr::parse_bytes(b"").unwrap();
    assert_eq!(m.len(), 0);
    assert_eq!(m.to_bytes(), Vec::<u8>::new());
}

#[test]
fn multiaddr_with_appends() {
    let m = Multiaddr::empty()
        .with(Component::Ip4(127, 0, 0, 1))
        .with(Component::Tcp(8080));
    assert_eq!(m.to_bytes(), b"/ip4/127.0.0.1/tcp/8080".to_vec());
    let again = Multiaddr::parse_bytes(&m.to_bytes()).unwrap();
    assert_eq!(again.to_bytes(), m.to_bytes());
}

#[test]
fn interop_parsers() {
    assert_eq!(parse_muxer(b"yamux"), Some(Muxer::Yamux));
    assert_eq!(parse_muxer(b"mplex"), Some(Muxer::Mplex));
    assert_eq!(parse_muxer(b"quic"), None);
    assert_eq!(parse_sec_protocol(b"tls"), Some(SecProtocol::Tls));
    assert_eq!(parse_sec_protocol(b"noise"), Some(SecProtocol::Noise));
    assert_eq!(parse_sec_protocol(b""), None);
}

#[test]
fn interop_muxer_check() {
    assert!(expect_muxer_yamux(Muxer::Yamux).is_ok());
    assert_eq!(
        expect_muxer_yamux(Muxer::Mplex),
        Err(ConfigError::UnsupportedMuxer)
    );
}

#[test]
fn interop_plan_choices() {
    assert_eq!(
        plan_transport(Transport::QuicV1, None, None),
        Ok(TransportDesc::Quic)
    );
    assert_eq!(
        plan_transport(Transport::WebrtcDirect, None, None),
        Ok(TransportDesc::Webrtc)
    );
    assert_eq!(
        plan_transport(Transport::Tcp, Some(SecProtocol::Tls), Some(Muxer::Yamux)),
        Ok(TransportDesc::Tcp(TcpConfig::default(), SecurityUpgrade::Tls))
    );
    assert_eq!(
        plan_transport(Transport::Ws, Some(SecProtocol::Noise), Some(Muxer::Yamux)),
        Ok(TransportDesc::Websocket(SecurityUpgrade::Noise))
    );
    assert_eq!(
        plan_transport(Transport::Tcp, None, Some(Muxer::Yamux)),
        Err(ConfigError::MissingSecurityProtocol)
    );
    assert_eq!(
        plan_transport(Transport::Ws, Some(SecProtocol::Tls), None),
        Err(ConfigError::MissingMuxer)
    );
    assert_eq!(
        plan_transport(Transport::Tcp, Some(SecProtocol::Tls), Some(Muxer::Mplex)),
        Err(ConfigError::UnsupportedMuxer)
    );
    assert_eq!(
        plan_transport(Transport::Webtransport, None, None),
        Err(ConfigError::WebtransportUnsupported)
    );
}

#[test]
fn interop_listen_addresses() {
    assert_eq!(
        listen_addr(127, 0, 0, 1, Transport::Tcp).to_bytes(),
        b"/ip4/127.0.0.1/tcp/0".to_vec()
    );
    assert_eq!(
        listen_addr(0, 0, 0, 0, Transport::QuicV1).to_bytes(),
        b"/ip4/0.0.0.0/udp/0/quic-v1".to_vec()
    );
    assert_eq!(
        listen_addr(10, 1, 2, 3, Transport::WebrtcDirect).to_bytes(),
        b"/ip4/10.1.2.3/udp/0/webrtc-direct".to_vec()
    );
    assert_eq!(
        listen_addr(127, 0, 0, 1, Transport::Ws).to_bytes(),
        b"/ip4/127.0.0.1/tcp/0/ws".to_vec()
    );
    assert_eq!(
        listen_addr(127, 0, 0, 1, Transport::Webtransport).to_bytes(),
        b"/ip4/127.0.0.1/udp/0/quic/webtransport".to_vec()
    );
}

#[test]
fn external_addresses_lifecycle() {
    let candidate = Multiaddr::parse_bytes(b"/ip4/1.2.3.4/tcp/1").unwrap();
    let mut set = ExternalAddresses::new();
    assert!(!set.is_confirmed(&candidate));
    set.on_candidate(&candidate);
    assert!(!set.is_confirmed(&candidate));
    set.on_confirmed(&candidate);
    assert!(set.is_confirmed(&candidate));
    assert_eq!(set.confirmed_len(), 1);
    set.on_expired(&candidate);
    assert!(!set.is_confirmed(&candidate));
    assert_eq!(set.confirmed_len(), 0);
}

#[test]
fn external_addresses_confirmation_implies_candidacy() {
    let addr = Multiaddr::parse_bytes(b"/ip4/9.9.9.9/udp/4/quic-v1").unwrap();
    let mut set = ExternalAddresses::new();
    set.on_confirmed(&addr);
    assert!(set.is_confirmed(&addr));
    set.on_expired(&addr);
    assert!(!set.is_confirmed(&addr));
}

#[test]
fn swarm_identity_and_fresh_ids() {
    let keypair = Keypair::from_public(7);
    let swarm: Swarm<dummy::Behaviour> = Swarm::new(
        dummy::Behaviour,
        swarm_core::TransportStack {
            parts: Vec::new(),
            dns: false,
        },
        keypair.public().to_peer_id(),
    );
    assert_eq!(swarm.local_peer_id(), keypair.public().to_peer_id());
    assert_eq!(swarm.num_connections(), 0);
    assert_eq!(swarm.preissued_connection_id(), ConnectionId::new(0));
}

#[test]
fn swarm_dial_bookkeeping() {
    let mut swarm = swarm_core::SwarmBuilder::with_existing_identity(Keypair::from_public(9))
        .with_tokio()
        .with_tcp()
        .with_noise()
        .unwrap()
        .with_behaviour(|_| dummy::Behaviour)
        .unwrap()
        .build();
    let cid = swarm.preissued_connection_id();
    let target = Multiaddr::parse_bytes(b"/ip4/127.0.0.1/tcp/1").unwrap();
    let outcome = swarm.dial(DialOpts {
        peer: Some(PeerId::new(42)),
        addresses: vec![target],
        extend_addresses_through_behaviour: false,
        role_override: Endpoint::Dialer,
        connection_id: cid,
    });
    assert!(outcome.is_ok());

    // A dial with an identifier the swarm never issued is refused.
    let stale = swarm.dial(DialOpts {
        peer: None,
        addresses: vec![Multiaddr::parse_bytes(b"/ip4/127.0.0.1/tcp/2").unwrap()],
        extend_addresses_through_behaviour: false,
        role_override: Endpoint::Dialer,
        connection_id: cid,
    });
    assert!(matches!(stale, Err(DialError::Aborted)));

    // Dialing this node itself is refused.
    let own = swarm.local_peer_id();
    let next = swarm.preissued_connection_id();
    let to_self = swarm.dial(DialOpts {
        peer: Some(own),
        addresses: vec![Multiaddr::parse_bytes(b"/ip4/127.0.0.1/tcp/3").unwrap()],
        extend_addresses_through_behaviour: false,
        role_override: Endpoint::Dialer,
        connection_id: next,
    });
    assert!(matches!(to_self, Err(DialError::LocalPeerId)));

    // A dial with no address at all is refused.
    let next = swarm.preissued_connection_id();
    let empty = swarm.dial(DialOpts {
        peer: None,
        addresses: Vec::new(),
        extend_addresses_through_behaviour: false,
        role_override: Endpoint::Dialer,
        connection_id: next,
    });
    assert!(matches!(empty, Err(DialError::NoAddresses)));

    // The failure of the pending dial is observed once.
    assert!(swarm.on_dial_failure(cid, DialError::Aborted));
    assert!(!swarm.on_dial_failure(cid, DialError::Aborted));
}

#[test]
fn to_swarm_map_in_maps_only_the_handler_event() {
    let cmd: ToSwarm<u32, u32> = ToSwarm::NotifyHandler {
        peer_id: PeerId::new(5),
        handler: NotifyHandler::One(ConnectionId::new(3)),
        event: 10,
    };
    let mapped: ToSwarm<u32, u64> = cmd.map_in(|e| (e as u64) + 1);
    match mapped {
        ToSwarm::NotifyHandler {
            peer_id,
            handler,
            event,
        } => {
            assert_eq!(peer_id, PeerId::new(5));
            assert!(matches!(handler, NotifyHandler::One(c) if c == ConnectionId::new(3)));
            assert_eq!(event, 11);
        }
        _ => panic!("wrong variant"),
    }

    let passthrough: ToSwarm<u32, u64> =
        ToSwarm::<u32, u32>::NewExternalAddrCandidate(Multiaddr::empty()).map_in(|e| e as u64);
    assert!(matches!(passthrough, ToSwarm::NewExternalAddrCandidate(_)));
}

#[test]
fn to_swarm_map_out_maps_only_the_generated_event() {
    let cmd: ToSwarm<u32, u32> = ToSwarm::GenerateEvent(21);
    let mapped: ToSwarm<u64, u32> = cmd.map_out(|e| (e as u64) * 2);
    assert!(matches!(mapped, ToSwarm::GenerateEvent(42)));

    let close: ToSwarm<u32, u32> = ToSwarm::CloseConnection {
        peer_id: PeerId::new(1),
        connection: CloseConnection::All,
    };
    let still: ToSwarm<u64, u32> = close.map_out(|e| e as u64);
    assert!(matches!(
        still,
        ToSwarm::CloseConnection {
            connection: CloseConnection::All,
            ..
        }
    ));
}

#[test]
fn swarm_connection_lifecycle() {
    let mut swarm = swarm_core::SwarmBuilder::with_existing_identity(Keypair::from_public(5))
        .with_tokio()
        .with_tcp()
        .with_noise()
        .unwrap()
        .with_behaviour(|_| dummy::Behaviour)
        .unwrap()
        .build();
    let cid = swarm.preissued_connection_id();
    let peer = PeerId::new(77);
    let target = Multiaddr::parse_bytes(b"/ip4/127.0.0.1/tcp/9").unwrap();
    assert!(swarm
        .dial(DialOpts {
            peer: Some(peer),
            addresses: vec![target.duplicate()],
            extend_addresses_through_behaviour: false,
            role_override: Endpoint::Dialer,
            connection_id: cid,
        })
        .is_ok());

    // The transport reports success: the connection is established once.
    let outcome = swarm.on_dial_success(cid, peer, target, Endpoint::Dialer, PortUse::New);
    assert_eq!(outcome, DialResolution::Established);
    assert_eq!(swarm.num_connections(), 1);

    // A behaviour command reaches the one open handler; an unknown
    // connection drops the event silently.
    assert!(swarm.notify_one(peer, cid, dummy::NoEvent::Unit));
    assert!(!swarm.notify_one(peer, ConnectionId::new(999), dummy::NoEvent::Unit));

    // The close pairs with the establishment; a second close is ignored.
    assert!(swarm.close_connection(cid));
    assert_eq!(swarm.num_connections(), 0);
    assert!(!swarm.close_connection(cid));

    // A report for an identifier that was never pending is ignored.
    assert_eq!(
        swarm.on_dial_success(
            ConnectionId::new(999),
            peer,
            Multiaddr::parse_bytes(b"/ip4/127.0.0.1/tcp/9").unwrap(),
            Endpoint::Dialer,
            PortUse::New
        ),
        DialResolution::UnknownAttempt
    );
}

#[test]
fn swarm_dial_success_checks_the_peer() {
    let mut swarm = swarm_core::SwarmBuilder::with_existing_identity(Keypair::from_public(6))
        .with_tokio()
        .with_tcp()
        .with_noise()
        .unwrap()
        .with_behaviour(|_| dummy::Behaviour)
        .unwrap()
        .build();
    let cid = swarm.preissued_connection_id();
    let target = Multiaddr::parse_bytes(b"/ip4/127.0.0.1/tcp/9").unwrap();
    assert!(swarm
        .dial(DialOpts {
            peer: Some(PeerId::new(1)),
            addresses: vec![target.duplicate()],
            extend_addresses_through_behaviour: false,
            role_override: Endpoint::Dialer,
            connection_id: cid,
        })
        .is_ok());
    let outcome = swarm.on_dial_success(cid, PeerId::new(2), target, Endpoint::Dialer, PortUse::New);
    assert_eq!(outcome, DialResolution::WrongPeer);
    assert_eq!(swarm.num_connections(), 0);
}

#[test]
fn swarm_external_address_commands() {
    let mut swarm = swarm_core::SwarmBuilder::with_existing_identity(Keypair::from_public(11))
        .with_tokio()
        .with_tcp()
        .with_noise()
        .unwrap()
        .with_behaviour(|_| dummy::Behaviour)
        .unwrap()
        .build();
    let addr = Multiaddr::parse_bytes(b"/ip4/1.2.3.4/tcp/1").unwrap();
    assert!(!swarm.is_external_addr_confirmed(&addr));
    swarm.on_external_addr_candidate(&addr);
    assert!(!swarm.is_external_addr_confirmed(&addr));
    swarm.on_external_addr_confirmed(&addr);
    assert!(swarm.is_external_addr_confirmed(&addr));
    swarm.on_external_addr_expired(&addr);
    assert!(!swarm.is_external_addr_confirmed(&addr));
}

#[test]
fn swarm_notify_any_and_pump() {
    let mut swarm = swarm_core::SwarmBuilder::with_existing_identity(Keypair::from_public(12))
        .with_tokio()
        .with_tcp()
        .with_noise()
        .unwrap()
        .with_behaviour(|_| dummy::Behaviour)
        .unwrap()
        .build();
    let peer = PeerId::new(5);
    assert!(!swarm.notify_any(peer, dummy::NoEvent::Unit));
    let cid = swarm.preissued_connection_id();
    let target = Multiaddr::parse_bytes(b"/ip4/127.0.0.1/tcp/2").unwrap();
    assert!(swarm
        .dial(DialOpts {
            peer: Some(peer),
            addresses: vec![target.duplicate()],
            extend_addresses_through_behaviour: false,
            role_override: Endpoint::Dialer,
            connection_id: cid,
        })
        .is_ok());
    assert_eq!(
        swarm.on_dial_success(cid, peer, target, Endpoint::Dialer, PortUse::New),
        DialResolution::Established
    );
    assert!(swarm.notify_any(peer, dummy::NoEvent::Unit));
    // The dummy handler is idle: pumping makes no progress and surfaces
    // nothing; an unknown connection pumps to nothing as well.
    assert!(swarm.pump_connection(cid).is_none());
    assert!(swarm.pump_connection(ConnectionId::new(700)).is_none());
    assert_eq!(swarm.num_connections(), 1);
}

#[test]
fn swarm_incoming_connection_lifecycle() {
    let mut swarm = swarm_core::SwarmBuilder::with_existing_identity(Keypair::from_public(13))
        .with_tokio()
        .with_tcp()
        .with_noise()
        .unwrap()
        .with_behaviour(|_| dummy::Behaviour)
        .unwrap()
        .build();
    let peer = PeerId::new(21);
    let local = Multiaddr::parse_bytes(b"/ip4/127.0.0.1/tcp/4001").unwrap();
    let remote = Multiaddr::parse_bytes(b"/ip4/127.0.0.1/tcp/55555").unwrap();
    let (outcome, cid) = swarm.on_incoming_connection(peer, local, remote);
    assert_eq!(outcome, swarm_core::IncomingResolution::Established);
    assert_eq!(swarm.num_connections(), 1);
    assert!(swarm.notify_one(peer, cid, dummy::NoEvent::Unit));
    assert!(swarm.close_connection(cid));
    assert_eq!(swarm.num_connections(), 0);
}
