//! The phased builder: each legal path through the phases compiles and
//! produces a swarm.

use swarm_core::dummy;
use swarm_core::DummyTransport;
use swarm_core::SecurityUpgrade;
use swarm_core::SwarmBuilder;
use swarm_core::TcpConfig;
use swarm_core::TransportDesc;

#[test]
fn tcp() {
    let _ = SwarmBuilder::with_new_identity()
        .with_tokio()
        .with_tcp()
        .with_tls()
        .with_noise()
        .unwrap()
        .with_behaviour(|_| dummy::Behaviour)
        .unwrap()
        .build();
}

#[test]
fn tcp_quic() {
    let _ = SwarmBuilder::with_new_identity()
        .with_tokio()
        .with_tcp()
        .with_tls()
        .with_noise()
        .unwrap()
        .with_quic()
        .with_behaviour(|_| dummy::Behaviour)
        .unwrap()
        .build();
}

#[test]
fn tcp_relay() {
    let _ = SwarmBuilder::with_new_identity()
        .with_tokio()
        .with_tcp()
        .with_tls()
        .with_noise()
        .unwrap()
        .with_relay()
        .with_tls()
        .with_noise()
        .unwrap()
        .with_behaviour(|_, relay| relay)
        .unwrap()
        .build();
}

#[test]
fn tcp_dns() {
    let _ = SwarmBuilder::with_new_identity()
        .with_tokio()
        .with_tcp()
        .with_tls()
        .with_noise()
        .unwrap()
        .with_dns()
        .unwrap()
        .with_behaviour(|_| dummy::Behaviour)
        .unwrap()
        .build();
}

/// Shows how transports unknown to the builder are attached.
#[test]
fn tcp_other_transport_other_transport() {
    let _ = SwarmBuilder::with_new_identity()
        .with_tokio()
        .with_tcp()
        .with_tls()
        .with_noise()
        .unwrap()
        .with_other_transport(|_| DummyTransport::new())
        .with_other_transport(|_| DummyTransport::new())
        .with_other_transport(|_| DummyTransport::new())
        .with_behaviour(|_| dummy::Behaviour)
        .unwrap()
        .build();
}

#[test]
fn tcp_websocket() {
    let _ = SwarmBuilder::with_new_identity()
        .with_tokio()
        .with_tcp()
        .with_tls()
        .with_noise()
        .unwrap()
        .with_websocket()
        .with_tls()
        .with_noise()
        .unwrap()
        .with_behaviour(|_| dummy::Behaviour)
        .unwrap()
        .build();
}

#[test]
fn tcp_noise_stack_has_one_tcp_layer() {
    let swarm = SwarmBuilder::with_new_identity()
        .with_tokio()
        .with_tcp()
        .with_noise()
        .unwrap()
        .with_behaviour(|_| dummy::Behaviour)
        .unwrap()
        .build();
    assert_eq!(
        swarm.transport_parts().as_slice(),
        &[TransportDesc::Tcp(TcpConfig::default(), SecurityUpgrade::Noise)]
    );
}

#[test]
fn tcp_tls_noise_quic_stack_layers_in_order() {
    let swarm = SwarmBuilder::with_new_identity()
        .with_tokio()
        .with_tcp()
        .with_tls()
        .with_noise()
        .unwrap()
        .with_quic()
        .with_behaviour(|_| dummy::Behaviour)
        .unwrap()
        .build();
    assert_eq!(
        swarm.transport_parts().as_slice(),
        &[
            TransportDesc::Tcp(TcpConfig::default(), SecurityUpgrade::TlsOrNoise),
            TransportDesc::Quic,
        ]
    );
}

#[test]
fn quic_without_tcp() {
    let swarm = SwarmBuilder::with_new_identity()
        .with_tokio()
        .with_quic()
        .with_behaviour(|_| dummy::Behaviour)
        .unwrap()
        .build();
    assert_eq!(swarm.transport_parts().as_slice(), &[TransportDesc::Quic]);
}

#[test]
fn relay_stack_gains_relay_layer() {
    let swarm = SwarmBuilder::with_new_identity()
        .with_tokio()
        .with_tcp()
        .with_tls()
        .without_noise()
        .unwrap()
        .with_relay()
        .with_tls()
        .with_noise()
        .unwrap()
        .with_behaviour(|_, relay| relay)
        .unwrap()
        .build();
    assert_eq!(
        swarm.transport_parts().as_slice(),
        &[
            TransportDesc::Tcp(TcpConfig::default(), SecurityUpgrade::Tls),
            TransportDesc::Relay(SecurityUpgrade::TlsOrNoise),
        ]
    );
}

#[test]
fn with_behaviour_embeds_the_relay_client() {
    let keypair = swarm_core::Keypair::from_public(33);
    let swarm = SwarmBuilder::with_existing_identity(keypair)
        .with_tokio()
        .with_tcp()
        .with_tls()
        .with_noise()
        .unwrap()
        .with_relay()
        .with_tls()
        .with_noise()
        .unwrap()
        .with_behaviour(|_, relay| relay)
        .unwrap()
        .build();
    assert_eq!(
        swarm.behaviour().local_peer_id,
        keypair.public().to_peer_id()
    );
}

#[test]
fn with_tcp_config_is_kept_in_the_stack() {
    let swarm = SwarmBuilder::with_new_identity()
        .with_tokio()
        .with_tcp_config(TcpConfig { nodelay: true })
        .with_noise()
        .unwrap()
        .with_behaviour(|_| dummy::Behaviour)
        .unwrap()
        .build();
    assert_eq!(
        swarm.transport_parts().as_slice(),
        &[TransportDesc::Tcp(
            TcpConfig { nodelay: true },
            SecurityUpgrade::Noise
        )]
    );
}
