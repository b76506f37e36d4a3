//! Interoperability-test configuration: which transport, security and
//! muxer a peer under test runs, read from plain values, and the choice
//! of stack layer and listen address each combination calls for.

use vstd::prelude::*;

use crate::builder::SecurityUpgrade;
use crate::builder::TcpConfig;
use crate::builder::TransportDesc;
use crate::multiaddr::seg_eq;
use crate::multiaddr::Component;
use crate::multiaddr::Multiaddr;
use crate::multiaddr::SpecComponent;

verus! {

/// The byte of the letter `a`, and likewise below for the other letters
/// configuration values are written with.
pub const L_A: u8 = 97;

/// The byte of the letter `e`.
pub const L_E: u8 = 101;

/// The byte of the letter `i`.
pub const L_I: u8 = 105;

/// The byte of the letter `l`.
pub const L_L: u8 = 108;

/// The byte of the letter `m`.
pub const L_M: u8 = 109;

/// The byte of the letter `n`.
pub const L_N: u8 = 110;

/// The byte of the letter `o`.
pub const L_O: u8 = 111;

/// The byte of the letter `p`.
pub const L_P: u8 = 112;

/// The byte of the letter `s`.
pub const L_S: u8 = 115;

/// The byte of the letter `t`.
pub const L_T: u8 = 116;

/// The byte of the letter `u`.
pub const L_U: u8 = 117;

/// The byte of the letter `x`.
pub const L_X: u8 = 120;

/// The byte of the letter `y`.
pub const L_Y: u8 = 121;

/// A stream multiplexer a peer may be asked to run.
#[derive(Clone, Copy, Debug, PartialEq, Eq, Structural)]
pub enum Muxer {
    /// The supported multiplexer.
    Yamux,
    /// A legacy multiplexer this stack does not offer.
    Mplex,
}

/// A security protocol a peer may be asked to run.
#[derive(Clone, Copy, Debug, PartialEq, Eq, Structural)]
pub enum SecProtocol {
    /// TLS 1.3.
    Tls,
    /// Noise XX.
    Noise,
}

/// A transport a peer may be asked to run.
#[derive(Clone, Copy, Debug, PartialEq, Eq, Structural)]
pub enum Transport {
    /// TCP with negotiated security and muxing.
    Tcp,
    /// QUIC version 1.
    QuicV1,
    /// Direct WebRTC.
    WebrtcDirect,
    /// WebSocket.
    Ws,
    /// WebTransport, only available in a browser.
    Webtransport,
}

/// Why a configuration cannot be served.
#[derive(Clone, Copy, Debug, PartialEq, Eq, Structural)]
pub enum ConfigError {
    /// Only Yamux is supported, not Mplex.
    UnsupportedMuxer,
    /// The muxer is required for this transport and was not given.
    MissingMuxer,
    /// The security protocol is required for this transport and was not
    /// given.
    MissingSecurityProtocol,
    /// WebTransport can only be used in a browser.
    WebtransportUnsupported,
}

/// Reads a muxer name.
pub fn parse_muxer(s: &[u8]) -> (r: Option<Muxer>)
    ensures
        r == Some(Muxer::Yamux) <==> s@ == seq![L_Y, L_A, L_M, L_U, L_X],
        r == Some(Muxer::Mplex) <==> s@ == seq![L_M, L_P, L_L, L_E, L_X],
        r is None <==> s@ != seq![L_Y, L_A, L_M, L_U, L_X] && s@ != seq![
            L_M, L_P, L_L, L_E, L_X,
        ],
{
    let n = s.len();
    let p_yamux: &[u8] = &[L_Y, L_A, L_M, L_U, L_X];
    let p_mplex: &[u8] = &[L_M, L_P, L_L, L_E, L_X];
    proof {
        assert(s@.subrange(0, s@.len() as int) =~= s@);
        assert(p_yamux@ =~= seq![L_Y, L_A, L_M, L_U, L_X]);
        assert(p_mplex@ =~= seq![L_M, L_P, L_L, L_E, L_X]);
    }
    if seg_eq(s, 0, n, p_yamux) {
        Some(Muxer::Yamux)
    } else if seg_eq(s, 0, n, p_mplex) {
        Some(Muxer::Mplex)
    } else {
        None
    }
}

/// Reads a security-protocol name.
pub fn parse_sec_protocol(s: &[u8]) -> (r: Option<SecProtocol>)
    ensures
        r == Some(SecProtocol::Tls) <==> s@ == seq![L_T, L_L, L_S],
        r == Some(SecProtocol::Noise) <==> s@ == seq![L_N, L_O, L_I, L_S, L_E],
        r is None <==> s@ != seq![L_T, L_L, L_S] && s@ != seq![L_N, L_O, L_I, L_S, L_E],
{
    let n = s.len();
    let p_tls: &[u8] = &[L_T, L_L, L_S];
    let p_noise: &[u8] = &[L_N, L_O, L_I, L_S, L_E];
    proof {
        assert(s@.subrange(0, s@.len() as int) =~= s@);
        assert(p_tls@ =~= seq![L_T, L_L, L_S]);
        assert(p_noise@ =~= seq![L_N, L_O, L_I, L_S, L_E]);
    }
    if seg_eq(s, 0, n, p_tls) {
        Some(SecProtocol::Tls)
    } else if seg_eq(s, 0, n, p_noise) {
        Some(SecProtocol::Noise)
    } else {
        None
    }
}

/// Checks that the configured muxer is the supported one. Only Yamux is
/// supported, not Mplex.
pub fn expect_muxer_yamux(muxer: Muxer) -> (r: Result<(), ConfigError>)
    ensures
        r is Ok <==> muxer == Muxer::Yamux,
        muxer == Muxer::Mplex ==> r == Err::<(), ConfigError>(ConfigError::UnsupportedMuxer),
{
    match muxer {
        Muxer::Yamux => Ok(()),
        Muxer::Mplex => Err(ConfigError::UnsupportedMuxer),
    }
}

/// The one stack layer a configuration calls for, or why none can be
/// served: QUIC and WebRTC need no explicit security or muxer; TCP and
/// WebSocket need both a security protocol and the Yamux muxer;
/// WebTransport is only available in a browser.
pub fn plan_transport(
    transport: Transport,
    security: Option<SecProtocol>,
    muxer: Option<Muxer>,
) -> (r: Result<TransportDesc, ConfigError>)
    ensures
        transport == Transport::QuicV1 ==> r == Ok::<TransportDesc, ConfigError>(
            TransportDesc::Quic,
        ),
        transport == Transport::WebrtcDirect ==> r == Ok::<TransportDesc, ConfigError>(
            TransportDesc::Webrtc,
        ),
        transport == Transport::Webtransport ==> r == Err::<TransportDesc, ConfigError>(
            ConfigError::WebtransportUnsupported,
        ),
        transport == Transport::Tcp || transport == Transport::Ws ==> match (security, muxer) {
            (None, _) => r == Err::<TransportDesc, ConfigError>(
                ConfigError::MissingSecurityProtocol,
            ),
            (Some(_), None) => r == Err::<TransportDesc, ConfigError>(ConfigError::MissingMuxer),
            (Some(_), Some(Muxer::Mplex)) => r == Err::<TransportDesc, ConfigError>(
                ConfigError::UnsupportedMuxer,
            ),
            (Some(sec), Some(Muxer::Yamux)) => r == Ok::<TransportDesc, ConfigError>(
                if transport == Transport::Tcp {
                    TransportDesc::Tcp(TcpConfig { nodelay: false }, security_upgrade_of(sec))
                } else {
                    TransportDesc::Websocket(security_upgrade_of(sec))
                },
            ),
        },
{
    match transport {
        Transport::QuicV1 => Ok(TransportDesc::Quic),
        Transport::WebrtcDirect => Ok(TransportDesc::Webrtc),
        Transport::Webtransport => Err(ConfigError::WebtransportUnsupported),
        Transport::Tcp => {
            let sec = match security {
                Some(s) => s,
                None => {
                    return Err(ConfigError::MissingSecurityProtocol);
                },
            };
            let m = match muxer {
                Some(m) => m,
                None => {
                    return Err(ConfigError::MissingMuxer);
                },
            };
            match expect_muxer_yamux(m) {
                Ok(()) => Ok(
                    TransportDesc::Tcp(
                        TcpConfig::default(),
                        match sec {
                            SecProtocol::Tls => SecurityUpgrade::Tls,
                            SecProtocol::Noise => SecurityUpgrade::Noise,
                        },
                    ),
                ),
                Err(e) => Err(e),
            }
        },
        Transport::Ws => {
            let sec = match security {
                Some(s) => s,
                None => {
                    return Err(ConfigError::MissingSecurityProtocol);
                },
            };
            let m = match muxer {
                Some(m) => m,
                None => {
                    return Err(ConfigError::MissingMuxer);
                },
            };
            match expect_muxer_yamux(m) {
                Ok(()) => Ok(
                    TransportDesc::Websocket(
                        match sec {
                            SecProtocol::Tls => SecurityUpgrade::Tls,
                            SecProtocol::Noise => SecurityUpgrade::Noise,
                        },
                    ),
                ),
                Err(e) => Err(e),
            }
        },
    }
}

/// The authentication upgrade a security protocol selects.
pub open spec fn security_upgrade_of(sec: SecProtocol) -> SecurityUpgrade {
    match sec {
        SecProtocol::Tls => SecurityUpgrade::Tls,
        SecProtocol::Noise => SecurityUpgrade::Noise,
    }
}

/// The address a peer with the given IPv4 address listens on for a
/// transport, with the port left to the system.
pub fn listen_addr(a: u8, b: u8, c: u8, d: u8, transport: Transport) -> (r: Multiaddr)
    ensures
        r.wf(),
        r.spec_trailer() == Seq::<u8>::empty(),
        transport == Transport::Tcp ==> r.spec_components() == seq![
            SpecComponent::Ip4(a, b, c, d), SpecComponent::Tcp(0),
        ],
        transport == Transport::QuicV1 ==> r.spec_components() == seq![
            SpecComponent::Ip4(a, b, c, d), SpecComponent::Udp(0), SpecComponent::QuicV1,
        ],
        transport == Transport::WebrtcDirect ==> r.spec_components() == seq![
            SpecComponent::Ip4(a, b, c, d), SpecComponent::Udp(0), SpecComponent::WebrtcDirect,
        ],
        transport == Transport::Ws ==> r.spec_components() == seq![
            SpecComponent::Ip4(a, b, c, d), SpecComponent::Tcp(0), SpecComponent::Ws,
        ],
        transport == Transport::Webtransport ==> r.spec_components() == seq![
            SpecComponent::Ip4(a, b, c, d), SpecComponent::Udp(0), SpecComponent::Quic,
            SpecComponent::Webtransport,
        ],
{
    let base = Multiaddr::empty().with(Component::Ip4(a, b, c, d));
    let r = match transport {
        Transport::Tcp => base.with(Component::Tcp(0)),
        Transport::QuicV1 => base.with(Component::Udp(0)).with(Component::QuicV1),
        Transport::WebrtcDirect => base.with(Component::Udp(0)).with(Component::WebrtcDirect),
        Transport::Ws => base.with(Component::Tcp(0)).with(Component::Ws),
        Transport::Webtransport => base.with(Component::Udp(0)).with(Component::Quic).with(
            Component::Webtransport,
        ),
    };
    proof {
        assert(Seq::<SpecComponent>::empty().push(SpecComponent::Ip4(a, b, c, d)) =~= seq![
            SpecComponent::Ip4(a, b, c, d),
        ]);
        match transport {
            Transport::Tcp => {
                assert(r.spec_components() =~= seq![
                    SpecComponent::Ip4(a, b, c, d), SpecComponent::Tcp(0),
                ]);
            },
            Transport::QuicV1 => {
                assert(r.spec_components() =~= seq![
                    SpecComponent::Ip4(a, b, c, d), SpecComponent::Udp(0), SpecComponent::QuicV1,
                ]);
            },
            Transport::WebrtcDirect => {
                assert(r.spec_components() =~= seq![
                    SpecComponent::Ip4(a, b, c, d), SpecComponent::Udp(0),
                    SpecComponent::WebrtcDirect,
                ]);
            },
            Transport::Ws => {
                assert(r.spec_components() =~= seq![
                    SpecComponent::Ip4(a, b, c, d), SpecComponent::Tcp(0), SpecComponent::Ws,
                ]);
            },
            Transport::Webtransport => {
                assert(r.spec_components() =~= seq![
                    SpecComponent::Ip4(a, b, c, d), SpecComponent::Udp(0), SpecComponent::Quic,
                    SpecComponent::Webtransport,
                ]);
            },
        }
    }
    r
}

} // verus!
