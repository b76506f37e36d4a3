//! The swarm runtime: the registry of connections, the pending-dial and
//! listener bookkeeping, the external-address sets, and the dispatch of
//! events between the behaviour and the connection handlers.
//!
//! The swarm keeps a ghost history of the lifecycle events it delivered.
//! Its well-formedness ties the registry to that history and yields the
//! lifecycle laws: a connection is established at most once and closed at
//! most once, a close is paired with the one earlier establishment with
//! the same peer and endpoint, and a handler event is delivered only
//! between the two.
//!
//! What only a transport can do — move bytes, resolve a dial — is out of
//! scope here: the caller drives the swarm by reporting transport
//! outcomes, and the swarm decides, records and dispatches.

use vstd::prelude::*;

use crate::behaviour::ConnectionClosed;
use crate::behaviour::ConnectionEstablished;
use crate::behaviour::ConnectionHandler;
use crate::behaviour::FromSwarm;
use crate::behaviour::HandlerAction;
use crate::behaviour::NetworkBehaviour;
use crate::connection::ConnectedPoint;
use crate::connection::DialError;
use crate::connection::DialOpts;
use crate::connection::SpecConnectedPoint;
use crate::external_addresses::ExternalAddresses;
use crate::identity::PeerId;
use crate::ids::ConnectionId;
use crate::ids::ListenerId;
use crate::multiaddr::Multiaddr;

verus! {

/// One entry of the delivered-event history.
pub enum Record {
    /// A connection was established.
    Established {
        /// The identifier of the connection.
        cid: ConnectionId,
        /// The peer at the other end.
        peer: PeerId,
        /// Direction and framing addresses.
        endpoint: SpecConnectedPoint,
    },
    /// A connection closed.
    Closed {
        /// The identifier of the connection.
        cid: ConnectionId,
        /// The peer at the other end.
        peer: PeerId,
        /// Direction and framing addresses.
        endpoint: SpecConnectedPoint,
    },
    /// An event of a connection handler was delivered to the behaviour.
    HandlerEvent {
        /// The identifier of the connection.
        cid: ConnectionId,
        /// The peer at the other end.
        peer: PeerId,
    },
}

impl Record {
    /// The connection the record refers to.
    pub open spec fn cid(self) -> ConnectionId {
        match self {
            Record::Established { cid, .. } => cid,
            Record::Closed { cid, .. } => cid,
            Record::HandlerEvent { cid, .. } => cid,
        }
    }
}

/// Whether the record at `k` establishes `cid`.
pub open spec fn est_at(h: Seq<Record>, k: int, cid: ConnectionId) -> bool {
    0 <= k < h.len() && (h[k] matches Record::Established { cid: c, .. } && c == cid)
}

/// Whether the record at `k` closes `cid`.
pub open spec fn closed_at(h: Seq<Record>, k: int, cid: ConnectionId) -> bool {
    0 <= k < h.len() && (h[k] matches Record::Closed { cid: c, .. } && c == cid)
}

/// Whether the record at `k` delivers a handler event of `cid`.
pub open spec fn handler_at(h: Seq<Record>, k: int, cid: ConnectionId) -> bool {
    0 <= k < h.len() && (h[k] matches Record::HandlerEvent { cid: c, .. } && c == cid)
}

/// Well-formedness of a history:
/// every connection is established at most once and closed at most once;
/// a close is preceded by the one establishment with the same peer and
/// endpoint; a handler event lies after the establishment with the same
/// peer and before any close.
pub open spec fn wf_hist(h: Seq<Record>) -> bool {
    &&& forall|k1: int, k2: int, cid: ConnectionId|
        est_at(h, k1, cid) && est_at(h, k2, cid) ==> k1 == k2
    &&& forall|k1: int, k2: int, cid: ConnectionId|
        closed_at(h, k1, cid) && closed_at(h, k2, cid) ==> k1 == k2
    &&& forall|k: int|
        0 <= k < h.len() ==> match #[trigger] h[k] {
            Record::Closed { cid, peer, endpoint } => exists|j: int|
                0 <= j < k && h[j] == (Record::Established { cid, peer, endpoint }),
            Record::HandlerEvent { cid, peer } => {
                &&& exists|j: int|
                    0 <= j < k && (#[trigger] h[j] matches Record::Established {
                        cid: c,
                        peer: p,
                        ..
                    } && c == cid && p == peer)
                &&& forall|k2: int| closed_at(h, k2, cid) ==> k2 > k
            },
            _ => true,
        }
}

/// A connection is established at most once: two establishment records
/// of the same connection are the same record.
pub proof fn lemma_established_unique(h: Seq<Record>, cid: ConnectionId, k1: int, k2: int)
    requires
        wf_hist(h),
        est_at(h, k1, cid),
        est_at(h, k2, cid),
    ensures
        k1 == k2,
{
}

/// A connection is closed at most once: two close records of the same
/// connection are the same record.
pub proof fn lemma_closed_unique(h: Seq<Record>, cid: ConnectionId, k1: int, k2: int)
    requires
        wf_hist(h),
        closed_at(h, k1, cid),
        closed_at(h, k2, cid),
    ensures
        k1 == k2,
{
}

/// Every close is paired with exactly one earlier establishment carrying
/// the same connection identifier, peer and endpoint.
pub proof fn lemma_closed_paired(h: Seq<Record>, k: int)
    requires
        wf_hist(h),
        0 <= k < h.len(),
        h[k] is Closed,
    ensures
        exists|j: int|
            0 <= j < k && h[j] == (Record::Established {
                cid: h[k]->Closed_cid,
                peer: h[k]->Closed_peer,
                endpoint: h[k]->Closed_endpoint,
            }),
{
}

/// A handler event is delivered only for a connection the behaviour saw
/// established, with the same peer, and not yet closed: it falls strictly
/// within the lifetime of the connection.
pub proof fn lemma_handler_event_in_lifetime(h: Seq<Record>, k: int)
    requires
        wf_hist(h),
        0 <= k < h.len(),
        h[k] is HandlerEvent,
    ensures
        exists|j: int|
            0 <= j < k && (#[trigger] h[j] matches Record::Established { cid: c, peer: p, .. } && c
                == h[k]->HandlerEvent_cid && p == h[k]->HandlerEvent_peer),
        forall|k2: int| closed_at(h, k2, h[k]->HandlerEvent_cid) ==> k2 > k,
{
}

/// An established connection: its identity, its endpoint, its handler,
/// and the ghost log of behaviour commands delivered to the handler.
pub struct Connection<H: ConnectionHandler> {
    /// The identifier of the connection.
    pub cid: ConnectionId,
    /// The peer at the other end.
    pub peer: PeerId,
    /// Direction and framing addresses.
    pub endpoint: ConnectedPoint,
    /// The protocol state machine of the connection.
    pub handler: H,
    /// The commands delivered to the handler, in order.
    pub delivered: Ghost<Seq<H::InEvent>>,
}

/// A dial that was initiated and has not resolved yet.
pub struct PendingDial {
    /// The pre-issued identifier of the connection being dialed.
    pub cid: ConnectionId,
    /// The peer expected at the other end, if known.
    pub expected_peer: Option<PeerId>,
}

/// An event surfaced to the caller polling the swarm.
pub enum SwarmEvent<TBehaviourEvent> {
    /// An event the behaviour generated.
    Behaviour(TBehaviourEvent),
    /// A connection was established.
    ConnectionEstablished {
        /// The peer at the other end.
        peer_id: PeerId,
        /// The identifier of the connection.
        connection_id: ConnectionId,
    },
    /// A connection closed.
    ConnectionClosed {
        /// The peer at the other end.
        peer_id: PeerId,
        /// The identifier of the connection.
        connection_id: ConnectionId,
    },
    /// A dial was initiated.
    Dialing {
        /// The peer dialed, if known.
        peer_id: Option<PeerId>,
        /// The identifier issued for the dial.
        connection_id: ConnectionId,
    },
    /// A dial failed.
    OutgoingConnectionError {
        /// The peer dialed, if known.
        peer_id: Option<PeerId>,
        /// The identifier issued for the dial.
        connection_id: ConnectionId,
    },
    /// An incoming connection failed.
    IncomingConnectionError {
        /// The identifier issued for the connection.
        connection_id: ConnectionId,
    },
    /// A listener began listening on an address.
    NewListenAddr {
        /// The listener.
        listener_id: ListenerId,
    },
    /// A listener closed.
    ListenerClosed {
        /// The listener.
        listener_id: ListenerId,
    },
    /// A new candidate for an external address.
    NewExternalAddrCandidate {},
    /// An external address was confirmed.
    ExternalAddrConfirmed {},
    /// An external address expired.
    ExternalAddrExpired {},
}

/// The swarm: the root behaviour, the connection registry, the dial and
/// listener bookkeeping, the external addresses, and the ghost history of
/// delivered lifecycle events.
pub struct Swarm<B: NetworkBehaviour> {
    behaviour: B,
    transport: crate::builder::TransportStack,
    local_peer_id: PeerId,
    next_id: u64,
    pending: Vec<PendingDial>,
    conns: Vec<Connection<B::Handler>>,
    external: ExternalAddresses,
    hist: Ghost<Seq<Record>>,
}

impl<B: NetworkBehaviour> Swarm<B> {
    /// The history of delivered lifecycle events.
    pub closed spec fn history(self) -> Seq<Record> {
        self.hist@
    }

    /// The root behaviour.
    pub closed spec fn spec_behaviour(self) -> B {
        self.behaviour
    }

    /// The open connections.
    pub closed spec fn spec_conns(self) -> Seq<Connection<B::Handler>> {
        self.conns@
    }

    /// The dials not yet resolved.
    pub closed spec fn spec_pending(self) -> Seq<PendingDial> {
        self.pending@
    }

    /// The external-address bookkeeping.
    pub closed spec fn spec_external(self) -> ExternalAddresses {
        self.external
    }

    /// The identity of this node.
    pub closed spec fn spec_local_peer_id(self) -> PeerId {
        self.local_peer_id
    }

    /// The layers of the transport stack the swarm was built with.
    pub closed spec fn spec_transport(self) -> Seq<crate::builder::TransportDesc> {
        self.transport.parts@
    }

    /// The next connection identifier to issue.
    pub closed spec fn spec_next_id(self) -> u64 {
        self.next_id
    }


    /// Whether connection `cid` is open, with `peer` at the other end.
    pub open spec fn is_open(self, cid: ConnectionId, peer: PeerId) -> bool {
        exists|i: int|
            0 <= i < self.spec_conns().len() && (#[trigger] self.spec_conns()[i]).cid == cid
                && self.spec_conns()[i].peer == peer
    }

    /// Whether some connection to `peer` is open.
    pub open spec fn has_peer(self, peer: PeerId) -> bool {
        exists|i: int|
            0 <= i < self.spec_conns().len() && (#[trigger] self.spec_conns()[i]).peer == peer
    }

    /// Whether a dial with identifier `cid` is pending.
    pub open spec fn is_pending(self, cid: ConnectionId) -> bool {
        exists|i: int|
            0 <= i < self.spec_pending().len() && (#[trigger] self.spec_pending()[i]).cid == cid
    }

    /// Well-formedness: the history is well formed; every open connection
    /// was established, with those fields, and not closed; identifiers of
    /// open connections and pending dials are distinct and were issued;
    /// pending dials have no history yet; the external addresses are well
    /// formed.
    pub open spec fn wf(self) -> bool {
        &&& wf_hist(self.history())
        &&& forall|i: int|
            0 <= i < self.spec_conns().len() ==> exists|j: int|
                0 <= j < self.history().len() && #[trigger] self.history()[j] == (
                Record::Established {
                    cid: (#[trigger] self.spec_conns()[i]).cid,
                    peer: self.spec_conns()[i].peer,
                    endpoint: self.spec_conns()[i].endpoint@,
                })
        &&& forall|i: int, k: int|
            0 <= i < self.spec_conns().len() ==> !(#[trigger] closed_at(
                self.history(),
                k,
                (#[trigger] self.spec_conns()[i]).cid,
            ))
        &&& forall|i: int, j: int|
            0 <= i < j < self.spec_conns().len() ==> (#[trigger] self.spec_conns()[i]).cid != (
            #[trigger] self.spec_conns()[j]).cid
        &&& forall|i: int, j: int|
            0 <= i < j < self.spec_pending().len() ==> (#[trigger] self.spec_pending()[i]).cid != (
            #[trigger] self.spec_pending()[j]).cid
        &&& forall|i: int, j: int|
            0 <= i < self.spec_pending().len() && 0 <= j < self.spec_conns().len() ==> (
            #[trigger] self.spec_pending()[i]).cid != (#[trigger] self.spec_conns()[j]).cid
        &&& forall|i: int, k: int|
            0 <= i < self.spec_pending().len() && 0 <= k < self.history().len() ==> (
            #[trigger] self.history()[k]).cid() != (#[trigger] self.spec_pending()[i]).cid
        &&& forall|k: int|
            0 <= k < self.history().len() ==> (#[trigger] self.history()[k]).cid().spec_id()
                < self.spec_next_id()
        &&& forall|i: int|
            0 <= i < self.spec_conns().len() ==> (
            #[trigger] self.spec_conns()[i]).cid.spec_id() < self.spec_next_id()
        &&& forall|i: int|
            0 <= i < self.spec_pending().len() ==> (
            #[trigger] self.spec_pending()[i]).cid.spec_id() < self.spec_next_id()
        &&& self.spec_external().wf()
    }

    /// A new swarm around a behaviour and a local identity: no
    /// connections, no pending dials, no listeners, an empty history.
    pub fn new(behaviour: B, transport: crate::builder::TransportStack, local_peer_id: PeerId) -> (r:
        Swarm<B>)
        ensures
            r.wf(),
            r.spec_behaviour() == behaviour,
            r.spec_local_peer_id() == local_peer_id,
            r.spec_transport() == transport.parts@,
            r.history() == Seq::<Record>::empty(),
            r.spec_conns().len() == 0,
            r.spec_pending().len() == 0,
    {
        Swarm {
            behaviour,
            transport,
            local_peer_id,
            next_id: 0,
            pending: Vec::new(),
            conns: Vec::new(),
            external: ExternalAddresses::new(),
            hist: Ghost(Seq::empty()),
        }
    }

    /// The identity of this node.
    pub fn local_peer_id(&self) -> (r: PeerId)
        ensures
            r == self.spec_local_peer_id(),
    {
        self.local_peer_id
    }

    /// The root behaviour.
    pub fn behaviour(&self) -> (r: &B)
        ensures
            r == self.spec_behaviour(),
    {
        &self.behaviour
    }

    /// The layers of the transport stack the swarm was built with.
    pub fn transport_parts(&self) -> (r: &Vec<crate::builder::TransportDesc>)
        ensures
            r@ == self.spec_transport(),
    {
        &self.transport.parts
    }

    /// How many connections are open.
    pub fn num_connections(&self) -> (r: usize)
        ensures
            r == self.spec_conns().len(),
    {
        self.conns.len()
    }

    /// The identifier the next initiated connection will get. Building a
    /// dial request with any other identifier has the dial refused.
    pub fn preissued_connection_id(&self) -> (r: ConnectionId)
        ensures
            r.spec_id() == self.spec_next_id(),
    {
        ConnectionId::new(self.next_id)
    }
}

/// Appending an establishment of a connection no record refers to keeps
/// a history well formed.
pub proof fn lemma_wf_hist_push_established(
    h: Seq<Record>,
    cid: ConnectionId,
    peer: PeerId,
    endpoint: SpecConnectedPoint,
)
    requires
        wf_hist(h),
        forall|k: int| 0 <= k < h.len() ==> (#[trigger] h[k]).cid() != cid,
    ensures
        wf_hist(h.push(Record::Established { cid, peer, endpoint })),
{
    let h2 = h.push(Record::Established { cid, peer, endpoint });
    assert forall|k1: int, k2: int, c: ConnectionId|
        est_at(h2, k1, c) && est_at(h2, k2, c) implies k1 == k2 by {
        if k1 < h.len() && k2 < h.len() {
            assert(est_at(h, k1, c) && est_at(h, k2, c));
        } else if k1 < h.len() {
            assert(h[k1].cid() == c && c == cid);
        } else if k2 < h.len() {
            assert(h[k2].cid() == c && c == cid);
        }
    }
    assert forall|k1: int, k2: int, c: ConnectionId|
        closed_at(h2, k1, c) && closed_at(h2, k2, c) implies k1 == k2 by {
        assert(closed_at(h, k1, c) && closed_at(h, k2, c));
    }
    assert forall|k: int| 0 <= k < h2.len() implies match #[trigger] h2[k] {
        Record::Closed { cid: c, peer: p, endpoint: e } => exists|j: int|
            0 <= j < k && h2[j] == (Record::Established { cid: c, peer: p, endpoint: e }),
        Record::HandlerEvent { cid: c, peer: p } => {
            &&& exists|j: int|
                0 <= j < k && (#[trigger] h2[j] matches Record::Established {
                    cid: c2,
                    peer: p2,
                    ..
                } && c2 == c && p2 == p)
            &&& forall|k2: int| closed_at(h2, k2, c) ==> k2 > k
        },
        _ => true,
    } by {
        if k < h.len() {
            match h[k] {
                Record::Closed { cid: c, peer: p, endpoint: e } => {
                    let j = choose|j: int|
                        0 <= j < k && h[j] == (Record::Established { cid: c, peer: p, endpoint: e });
                    assert(h2[j] == (Record::Established { cid: c, peer: p, endpoint: e }));
                },
                Record::HandlerEvent { cid: c, peer: p } => {
                    let j = choose|j: int|
                        0 <= j < k && (#[trigger] h[j] matches Record::Established {
                            cid: c2,
                            peer: p2,
                            ..
                        } && c2 == c && p2 == p);
                    assert(h2[j] == h[j]);
                    assert(h2[j] matches Record::Established { cid: c2, peer: p2, .. } && c2 == c
                        && p2 == p);
                    assert forall|k2: int| closed_at(h2, k2, c) implies k2 > k by {
                        assert(closed_at(h, k2, c));
                    }
                },
                _ => {},
            }
        }
    }
}

/// Appending the close of an established, not yet closed connection keeps
/// a history well formed.
pub proof fn lemma_wf_hist_push_closed(
    h: Seq<Record>,
    cid: ConnectionId,
    peer: PeerId,
    endpoint: SpecConnectedPoint,
)
    requires
        wf_hist(h),
        exists|j: int|
            0 <= j < h.len() && #[trigger] h[j] == (Record::Established { cid, peer, endpoint }),
        forall|k: int| !closed_at(h, k, cid),
    ensures
        wf_hist(h.push(Record::Closed { cid, peer, endpoint })),
{
    let h2 = h.push(Record::Closed { cid, peer, endpoint });
    assert forall|k1: int, k2: int, c: ConnectionId|
        est_at(h2, k1, c) && est_at(h2, k2, c) implies k1 == k2 by {
        assert(est_at(h, k1, c) && est_at(h, k2, c));
    }
    assert forall|k1: int, k2: int, c: ConnectionId|
        closed_at(h2, k1, c) && closed_at(h2, k2, c) implies k1 == k2 by {
        if k1 < h.len() && k2 < h.len() {
            assert(closed_at(h, k1, c) && closed_at(h, k2, c));
        } else if k1 < h.len() {
            assert(closed_at(h, k1, c));
        } else if k2 < h.len() {
            assert(closed_at(h, k2, c));
        }
    }
    assert forall|k: int| 0 <= k < h2.len() implies match #[trigger] h2[k] {
        Record::Closed { cid: c, peer: p, endpoint: e } => exists|j: int|
            0 <= j < k && h2[j] == (Record::Established { cid: c, peer: p, endpoint: e }),
        Record::HandlerEvent { cid: c, peer: p } => {
            &&& exists|j: int|
                0 <= j < k && (#[trigger] h2[j] matches Record::Established {
                    cid: c2,
                    peer: p2,
                    ..
                } && c2 == c && p2 == p)
            &&& forall|k2: int| closed_at(h2, k2, c) ==> k2 > k
        },
        _ => true,
    } by {
        if k < h.len() {
            match h[k] {
                Record::Closed { cid: c, peer: p, endpoint: e } => {
                    let j = choose|j: int|
                        0 <= j < k && h[j] == (Record::Established { cid: c, peer: p, endpoint: e });
                    assert(h2[j] == (Record::Established { cid: c, peer: p, endpoint: e }));
                },
                Record::HandlerEvent { cid: c, peer: p } => {
                    let j = choose|j: int|
                        0 <= j < k && (#[trigger] h[j] matches Record::Established {
                            cid: c2,
                            peer: p2,
                            ..
                        } && c2 == c && p2 == p);
                    assert(h2[j] == h[j]);
                    assert(h2[j] matches Record::Established { cid: c2, peer: p2, .. } && c2 == c
                        && p2 == p);
                    assert forall|k2: int| closed_at(h2, k2, c) implies k2 > k by {
                        if k2 < h.len() {
                            assert(closed_at(h, k2, c));
                        } else if closed_at(h2, k2, c) {
                            assert(k2 == h.len());
                        }
                    }
                },
                _ => {},
            }
        } else {
            let j = choose|j: int|
                0 <= j < h.len() && #[trigger] h[j] == (Record::Established {
                    cid,
                    peer,
                    endpoint,
                });
            assert(h2[j] == (Record::Established { cid, peer, endpoint }));
        }
    }
}

/// Appending a handler event of an established, not yet closed connection
/// keeps a history well formed.
pub proof fn lemma_wf_hist_push_handler(h: Seq<Record>, cid: ConnectionId, peer: PeerId)
    requires
        wf_hist(h),
        exists|j: int|
            0 <= j < h.len() && (#[trigger] h[j] matches Record::Established {
                cid: c,
                peer: p,
                ..
            } && c == cid && p == peer),
        forall|k: int| !closed_at(h, k, cid),
    ensures
        wf_hist(h.push(Record::HandlerEvent { cid, peer })),
{
    let h2 = h.push(Record::HandlerEvent { cid, peer });
    assert forall|k1: int, k2: int, c: ConnectionId|
        est_at(h2, k1, c) && est_at(h2, k2, c) implies k1 == k2 by {
        assert(est_at(h, k1, c) && est_at(h, k2, c));
    }
    assert forall|k1: int, k2: int, c: ConnectionId|
        closed_at(h2, k1, c) && closed_at(h2, k2, c) implies k1 == k2 by {
        assert(closed_at(h, k1, c) && closed_at(h, k2, c));
    }
    assert forall|k: int| 0 <= k < h2.len() implies match #[trigger] h2[k] {
        Record::Closed { cid: c, peer: p, endpoint: e } => exists|j: int|
            0 <= j < k && h2[j] == (Record::Established { cid: c, peer: p, endpoint: e }),
        Record::HandlerEvent { cid: c, peer: p } => {
            &&& exists|j: int|
                0 <= j < k && (#[trigger] h2[j] matches Record::Established {
                    cid: c2,
                    peer: p2,
                    ..
                } && c2 == c && p2 == p)
            &&& forall|k2: int| closed_at(h2, k2, c) ==> k2 > k
        },
        _ => true,
    } by {
        if k < h.len() {
            match h[k] {
                Record::Closed { cid: c, peer: p, endpoint: e } => {
                    let j = choose|j: int|
                        0 <= j < k && h[j] == (Record::Established { cid: c, peer: p, endpoint: e });
                    assert(h2[j] == (Record::Established { cid: c, peer: p, endpoint: e }));
                },
                Record::HandlerEvent { cid: c, peer: p } => {
                    let j = choose|j: int|
                        0 <= j < k && (#[trigger] h[j] matches Record::Established {
                            cid: c2,
                            peer: p2,
                            ..
                        } && c2 == c && p2 == p);
                    assert(h2[j] == h[j]);
                    assert(h2[j] matches Record::Established { cid: c2, peer: p2, .. } && c2 == c
                        && p2 == p);
                    assert forall|k2: int| closed_at(h2, k2, c) implies k2 > k by {
                        assert(closed_at(h, k2, c));
                    }
                },
                _ => {},
            }
        } else {
            let j = choose|j: int|
                0 <= j < h.len() && (#[trigger] h[j] matches Record::Established {
                    cid: c,
                    peer: p,
                    ..
                } && c == cid && p == peer);
            assert(h2[j] == h[j]);
            assert(h2[j] matches Record::Established { cid: c, peer: p, .. } && c == cid && p
                == peer);
            assert forall|k2: int| closed_at(h2, k2, cid) implies k2 > h.len() as int by {
                if k2 < h.len() {
                    assert(closed_at(h, k2, cid));
                } else if closed_at(h2, k2, cid) {
                    assert(h2[k2] is Closed);
                }
            }
        }
    }
}

impl<B: NetworkBehaviour> Swarm<B> {
    /// Initiates a dial. The request must carry the pre-issued identifier
    /// of [`Swarm::preissued_connection_id`]; any other is refused. A dial
    /// of this node itself is refused, as is one with no address at all
    /// (counting those the behaviour adds when the request opted in).
    /// On success the dial is recorded as pending under its identifier.
    #[verifier::rlimit(30)]
    pub fn dial(&mut self, opts: DialOpts) -> (r: Result<(), DialError>)
        requires
            old(self).wf(),
        ensures
            final(self).wf(),
            final(self).spec_local_peer_id() == old(self).spec_local_peer_id(),
            final(self).history() == old(self).history(),
            final(self).spec_conns() == old(self).spec_conns(),
            final(self).spec_external() == old(self).spec_external(),
            opts.peer == Some(old(self).spec_local_peer_id()) ==> r == Err::<(), DialError>(
                DialError::LocalPeerId,
            ),
            opts.peer != Some(old(self).spec_local_peer_id()) && (opts.connection_id.spec_id()
                != old(self).spec_next_id() || old(self).spec_next_id() == u64::MAX) ==> r == Err::<
                (),
                DialError,
            >(DialError::Aborted),
            opts.peer != Some(old(self).spec_local_peer_id()) && opts.connection_id.spec_id()
                == old(self).spec_next_id() && old(self).spec_next_id() != u64::MAX
                && !opts.extend_addresses_through_behaviour ==> (r is Ok <==> opts.addresses@.len()
                > 0),
            r is Ok ==> {
                &&& final(self).spec_pending() == old(self).spec_pending().push(
                    PendingDial { cid: opts.connection_id, expected_peer: opts.peer },
                )
                &&& final(self).spec_next_id() == old(self).spec_next_id() + 1
                &&& opts.connection_id.spec_id() == old(self).spec_next_id()
                &&& opts.peer != Some(old(self).spec_local_peer_id())
            },
            !(r is Ok) ==> final(self).spec_pending() == old(self).spec_pending()
                && final(self).spec_next_id() == old(self).spec_next_id(),
            !opts.extend_addresses_through_behaviour ==> final(self).spec_behaviour()
                == old(self).spec_behaviour(),
            opts.peer != Some(old(self).spec_local_peer_id()) && opts.connection_id.spec_id()
                == old(self).spec_next_id() && old(self).spec_next_id() != u64::MAX
                && opts.extend_addresses_through_behaviour ==> ({
                let g = old(self).spec_behaviour().pending_outbound_spec(
                    opts.connection_id,
                    opts.peer,
                    opts.addresses@.map_values(|a: Multiaddr| a@),
                    opts.role_override,
                );
                &&& final(self).spec_behaviour() == g.0
                &&& match g.1 {
                    Ok(extra) => {
                        &&& (r is Ok <==> opts.addresses@.len() > 0 || extra.len() > 0)
                        &&& (!(r is Ok) ==> r == Err::<(), DialError>(DialError::NoAddresses))
                    },
                    Err(d) => r == Err::<(), DialError>(DialError::Denied(d)),
                }
            }),
    {
        let is_self = match opts.peer {
            Some(p) => p == self.local_peer_id,
            None => false,
        };
        if is_self {
            return Err(DialError::LocalPeerId);
        }
        if self.next_id == u64::MAX || opts.connection_id.id() != self.next_id {
            return Err(DialError::Aborted);
        }
        let mut have_address = opts.addresses.len() > 0;
        if opts.extend_addresses_through_behaviour {
            match self.behaviour.handle_pending_outbound_connection(
                opts.connection_id,
                opts.peer,
                &opts.addresses,
                opts.role_override,
            ) {
                Ok(extra) => {
                    proof {
                        assert(extra@.map_values(|a: Multiaddr| a@).len() == extra@.len());
                    }
                    if extra.len() > 0 {
                        have_address = true;
                    }
                },
                Err(d) => {
                    return Err(DialError::Denied(d));
                },
            }
        }
        if !have_address {
            return Err(DialError::NoAddresses);
        }
        let ghost prev = *self;
        self.pending.push(PendingDial { cid: opts.connection_id, expected_peer: opts.peer });
        self.next_id = self.next_id + 1;
        proof {
            assert forall|i: int, j: int|
                0 <= i < j < self.spec_pending().len() implies (
            #[trigger] self.spec_pending()[i]).cid != (#[trigger] self.spec_pending()[j]).cid by {
                if j < self.spec_pending().len() - 1 {
                    assert(self.spec_pending()[i] == prev.spec_pending()[i]);
                    assert(self.spec_pending()[j] == prev.spec_pending()[j]);
                } else {
                    assert(self.spec_pending()[i] == prev.spec_pending()[i]);
                    assert(prev.spec_pending()[i].cid.spec_id() < prev.spec_next_id());
                }
            }
            assert forall|i: int, j: int|
                0 <= i < self.spec_pending().len() && 0 <= j < self.spec_conns().len() implies (
            #[trigger] self.spec_pending()[i]).cid != (#[trigger] self.spec_conns()[j]).cid by {
                if i < self.spec_pending().len() - 1 {
                    assert(self.spec_pending()[i] == prev.spec_pending()[i]);
                }
            }
            assert forall|i: int, k: int|
                0 <= i < self.spec_pending().len() && 0 <= k < self.history().len() implies (
            #[trigger] self.history()[k]).cid() != (#[trigger] self.spec_pending()[i]).cid by {
                if i < self.spec_pending().len() - 1 {
                    assert(self.spec_pending()[i] == prev.spec_pending()[i]);
                }
            }
            assert forall|i: int|
                0 <= i < self.spec_pending().len() implies (
            #[trigger] self.spec_pending()[i]).cid.spec_id() < self.spec_next_id() by {
                if i < self.spec_pending().len() - 1 {
                    assert(self.spec_pending()[i] == prev.spec_pending()[i]);
                }
            }
        }
        Ok(())
    }


    /// Reports that a pending dial failed: the dial leaves the pending
    /// set and the behaviour observes a dial failure carrying the
    /// identifier, the expected peer and the error. A report for an
    /// identifier that is not pending is ignored.
    #[verifier::rlimit(60)]
    pub fn on_dial_failure(&mut self, cid: ConnectionId, error: DialError) -> (r: bool)
        requires
            old(self).wf(),
        ensures
            final(self).wf(),
            r <==> holds_pending(old(self).spec_pending(), cid),
            final(self).history() == old(self).history(),
            final(self).spec_conns() == old(self).spec_conns(),
            final(self).spec_external() == old(self).spec_external(),
            final(self).spec_next_id() == old(self).spec_next_id(),
            final(self).spec_local_peer_id() == old(self).spec_local_peer_id(),
            !r ==> final(self).spec_pending() == old(self).spec_pending() && final(
                self).spec_behaviour() == old(self).spec_behaviour(),
            r ==> exists|i: int|
                {
                    &&& 0 <= i < old(self).spec_pending().len()
                    &&& (#[trigger] old(self).spec_pending()[i]).cid == cid
                    &&& final(self).spec_pending() == old(self).spec_pending().update(
                        i,
                        old(self).spec_pending().last(),
                    ).drop_last()
                    &&& final(self).spec_behaviour() == old(self).spec_behaviour()
                        .on_swarm_event_spec(
                        FromSwarm::DialFailure(
                            crate::behaviour::DialFailure {
                                peer_id: old(self).spec_pending()[i].expected_peer,
                                error,
                                connection_id: cid,
                            },
                        ),
                    )
                },
    {
        let i = match find_pending(&self.pending, cid) {
            Some(i) => i,
            None => {
                return false;
            },
        };
        let ghost prev = self.pending@;
        let ghost prev_behaviour = self.behaviour;
        let ghost errg = error;
        let entry = self.pending.swap_remove(i);
        let event = FromSwarm::DialFailure(
            crate::behaviour::DialFailure {
                peer_id: entry.expected_peer,
                error,
                connection_id: cid,
            },
        );
        let ghost eventg = event;
        self.behaviour.on_swarm_event(&event);
        proof {
            assert(prev[i as int].cid == cid);
            assert(self.pending@ == prev.update(i as int, prev.last()).drop_last());
            assert(eventg == FromSwarm::DialFailure(
                crate::behaviour::DialFailure {
                    peer_id: prev[i as int].expected_peer,
                    error: errg,
                    connection_id: cid,
                },
            ));
            assert(self.behaviour == prev_behaviour.on_swarm_event_spec(eventg));
            assert forall|x: int, y: int|
                0 <= x < y < self.spec_pending().len() implies (
            #[trigger] self.spec_pending()[x]).cid != (#[trigger] self.spec_pending()[y]).cid by {
                let px: int = if x == i { prev.len() - 1 } else { x };
                let py: int = if y == i { prev.len() - 1 } else { y };
                assert(self.spec_pending()[x] == prev[px]);
                assert(self.spec_pending()[y] == prev[py]);
            }
            assert forall|x: int, j: int|
                0 <= x < self.spec_pending().len() && 0 <= j < self.spec_conns().len() implies (
            #[trigger] self.spec_pending()[x]).cid != (#[trigger] self.spec_conns()[j]).cid by {
                let px: int = if x == i { prev.len() - 1 } else { x };
                assert(self.spec_pending()[x] == prev[px]);
            }
            assert forall|x: int, k: int|
                0 <= x < self.spec_pending().len() && 0 <= k < self.history().len() implies (
            #[trigger] self.history()[k]).cid() != (#[trigger] self.spec_pending()[x]).cid by {
                let px: int = if x == i { prev.len() - 1 } else { x };
                assert(self.spec_pending()[x] == prev[px]);
            }
            assert forall|x: int|
                0 <= x < self.spec_pending().len() implies (
            #[trigger] self.spec_pending()[x]).cid.spec_id() < self.spec_next_id() by {
                let px: int = if x == i { prev.len() - 1 } else { x };
                assert(self.spec_pending()[x] == prev[px]);
            }
        }
        true
    }

    /// Delivers a behaviour command to the handler of one connection:
    /// where the connection is open with that peer, the handler accepts
    /// the event exactly once; where it is not, the event is silently
    /// dropped and nothing changes.
    #[verifier::rlimit(60)]
    pub fn notify_one(
        &mut self,
        peer: PeerId,
        cid: ConnectionId,
        event: <B::Handler as ConnectionHandler>::InEvent,
    ) -> (r: bool)
        requires
            old(self).wf(),
        ensures
            final(self).wf(),
            r <==> old(self).is_open(cid, peer),
            final(self).history() == old(self).history(),
            final(self).spec_pending() == old(self).spec_pending(),
            final(self).spec_external() == old(self).spec_external(),
            final(self).spec_next_id() == old(self).spec_next_id(),
            final(self).spec_local_peer_id() == old(self).spec_local_peer_id(),
            final(self).spec_behaviour() == old(self).spec_behaviour(),
            !r ==> final(self).spec_conns() == old(self).spec_conns(),
            r ==> exists|i: int|
                {
                    &&& 0 <= i < old(self).spec_conns().len()
                    &&& (#[trigger] old(self).spec_conns()[i]).cid == cid
                    &&& old(self).spec_conns()[i].peer == peer
                    &&& final(self).spec_conns().len() == old(self).spec_conns().len()
                    &&& final(self).spec_conns()[i].cid == cid
                    &&& final(self).spec_conns()[i].peer == peer
                    &&& final(self).spec_conns()[i].endpoint == old(self).spec_conns()[i].endpoint
                    &&& final(self).spec_conns()[i].handler
                        == old(self).spec_conns()[i].handler.next_state(event)
                    &&& final(self).spec_conns()[i].delivered@
                        == old(self).spec_conns()[i].delivered@.push(event)
                    &&& forall|j: int|
                        0 <= j < final(self).spec_conns().len() && j != i
                            ==> final(self).spec_conns()[j] == old(self).spec_conns()[j]
                },
    {
        let i = match find_conn(&self.conns, cid) {
            Some(i) => i,
            None => {
                proof {
                    assert(!old(self).is_open(cid, peer));
                }
                return false;
            },
        };
        if self.conns[i].peer != peer {
            proof {
                assert forall|j: int|
                    0 <= j < self.spec_conns().len() && (#[trigger] self.spec_conns()[j]).cid
                        == cid implies self.spec_conns()[j].peer != peer by {
                    if j != i {
                        assert(self.spec_conns()[i as int].cid == self.spec_conns()[j].cid);
                    }
                }
                assert(!old(self).is_open(cid, peer));
            }
            return false;
        }
        let ghost prev = self.conns@;
        let ghost ev = event;
        let mut conn = self.conns.remove(i);
        conn.handler.on_behaviour_event(event);
        proof {
            conn.delivered@ = prev[i as int].delivered@.push(ev);
        }
        self.conns.insert(i, conn);
        proof {
            assert(self.conns@ =~= prev.update(
                i as int,
                Connection {
                    cid: prev[i as int].cid,
                    peer: prev[i as int].peer,
                    endpoint: prev[i as int].endpoint,
                    handler: prev[i as int].handler.next_state(ev),
                    delivered: Ghost(prev[i as int].delivered@.push(ev)),
                },
            ));
            assert forall|x: int|
                0 <= x < self.spec_conns().len() implies (#[trigger] self.spec_conns()[x]).cid
                    == prev[x].cid && self.spec_conns()[x].peer == prev[x].peer && self
                    .spec_conns()[x].endpoint == prev[x].endpoint by {}
            assert forall|j: int|
                0 <= j < self.spec_conns().len() implies exists|k: int|
                    0 <= k < self.history().len() && #[trigger] self.history()[k] == (
                    Record::Established {
                        cid: (#[trigger] self.spec_conns()[j]).cid,
                        peer: self.spec_conns()[j].peer,
                        endpoint: self.spec_conns()[j].endpoint@,
                    }) by {
                let k = choose|k: int|
                    0 <= k < self.history().len() && #[trigger] self.history()[k] == (
                    Record::Established {
                        cid: prev[j].cid,
                        peer: prev[j].peer,
                        endpoint: prev[j].endpoint@,
                    });
                assert(self.history()[k] == (Record::Established {
                    cid: self.spec_conns()[j].cid,
                    peer: self.spec_conns()[j].peer,
                    endpoint: self.spec_conns()[j].endpoint@,
                }));
            }
            assert forall|j: int, k: int|
                0 <= j < self.spec_conns().len() implies !(#[trigger] closed_at(
                self.history(),
                k,
                (#[trigger] self.spec_conns()[j]).cid,
            )) by {
                assert(!closed_at(self.history(), k, prev[j].cid));
            }
            assert forall|x: int, y: int|
                0 <= x < y < self.spec_conns().len() implies (
            #[trigger] self.spec_conns()[x]).cid != (#[trigger] self.spec_conns()[y]).cid by {
                assert(prev[x].cid != prev[y].cid);
            }
            assert forall|x: int, j: int|
                0 <= x < self.spec_pending().len() && 0 <= j < self.spec_conns().len() implies (
            #[trigger] self.spec_pending()[x]).cid != (#[trigger] self.spec_conns()[j]).cid by {
                assert(self.spec_pending()[x].cid != prev[j].cid);
            }
            assert forall|j: int|
                0 <= j < self.spec_conns().len() implies (
            #[trigger] self.spec_conns()[j]).cid.spec_id() < self.spec_next_id() by {
                assert(prev[j].cid.spec_id() < self.spec_next_id());
            }
            assert(prev[i as int].cid == cid && prev[i as int].peer == peer);
            assert(old(self).is_open(cid, peer));
        }
        true
    }
}

impl<B: NetworkBehaviour> Swarm<B> {
    /// Reports that a pending dial resolved into an authenticated, muxed
    /// connection to `peer` over `address`. Where the peer is the one
    /// expected and the behaviour accepts the connection, it becomes
    /// open, its establishment joins the history, and the behaviour
    /// observes it; where the peer differs or the behaviour refuses, the
    /// behaviour observes a dial failure instead. A report for an
    /// identifier that is not pending is ignored.
    #[verifier::rlimit(100)]
    pub fn on_dial_success(
        &mut self,
        cid: ConnectionId,
        peer: PeerId,
        address: Multiaddr,
        role_override: crate::connection::Endpoint,
        port_use: crate::connection::PortUse,
    ) -> (r: DialResolution)
        requires
            old(self).wf(),
        ensures
            final(self).wf(),
            r == DialResolution::UnknownAttempt <==> !holds_pending(old(self).spec_pending(), cid),
            r == DialResolution::UnknownAttempt ==> final(self).spec_conns() == old(
                self).spec_conns() && final(self).history() == old(self).history() && final(
                self).spec_pending() == old(self).spec_pending() && final(self).spec_behaviour()
                == old(self).spec_behaviour(),
            r == DialResolution::Established ==> final(self).is_open(cid, peer) && final(
                self).history() == old(self).history().push(
                Record::Established {
                    cid,
                    peer,
                    endpoint: SpecConnectedPoint::Dialer {
                        address: address@,
                        role_override,
                        port_use,
                    },
                },
            ),
            r != DialResolution::Established ==> final(self).history() == old(self).history()
                && final(self).spec_conns() == old(self).spec_conns(),
            !holds_pending(final(self).spec_pending(), cid),
            final(self).spec_external() == old(self).spec_external(),
            final(self).spec_local_peer_id() == old(self).spec_local_peer_id(),
            final(self).spec_next_id() == old(self).spec_next_id(),
            r == DialResolution::WrongPeer <==> exists|i: int|
                0 <= i < old(self).spec_pending().len() && (
                #[trigger] old(self).spec_pending()[i]).cid == cid
                    && (old(self).spec_pending()[i].expected_peer matches Some(p) && p != peer),
            r == DialResolution::WrongPeer ==> exists|i: int|
                0 <= i < old(self).spec_pending().len() && (
                #[trigger] old(self).spec_pending()[i]).cid == cid && final(self).spec_behaviour()
                    == old(self).spec_behaviour().on_swarm_event_spec(
                    FromSwarm::DialFailure(
                        crate::behaviour::DialFailure {
                            peer_id: old(self).spec_pending()[i].expected_peer,
                            error: DialError::WrongPeerId,
                            connection_id: cid,
                        },
                    ),
                ),
            r == DialResolution::Established || r == DialResolution::DeniedByBehaviour ==> ({
                let g = old(self).spec_behaviour().establish_outbound_spec(
                    cid,
                    peer,
                    address@,
                    role_override,
                    port_use,
                );
                match g.1 {
                    Ok(h) => {
                        &&& r == DialResolution::Established
                        &&& final(self).spec_conns().len() == old(self).spec_conns().len() + 1
                        &&& forall|j: int|
                            0 <= j < old(self).spec_conns().len() ==> final(self).spec_conns()[j]
                                == old(self).spec_conns()[j]
                        &&& final(self).spec_conns().last().cid == cid
                        &&& final(self).spec_conns().last().peer == peer
                        &&& final(self).spec_conns().last().endpoint@
                            == (SpecConnectedPoint::Dialer {
                            address: address@,
                            role_override,
                            port_use,
                        })
                        &&& final(self).spec_conns().last().handler == h
                        &&& final(self).spec_conns().last().delivered@.len() == 0
                        &&& exists|ev: FromSwarm|
                            {
                                &&& #[trigger] g.0.on_swarm_event_spec(ev)
                                    == final(self).spec_behaviour()
                                &&& ev matches FromSwarm::ConnectionEstablished(ce)
                                    && ce.peer_id == peer && ce.connection_id == cid
                                    && ce.endpoint@ == (SpecConnectedPoint::Dialer {
                                    address: address@,
                                    role_override,
                                    port_use,
                                }) && ce.failed_addresses@.len() == 0
                            }
                    },
                    Err(d) => {
                        &&& r == DialResolution::DeniedByBehaviour
                        &&& exists|i: int|
                            0 <= i < old(self).spec_pending().len() && (
                            #[trigger] old(self).spec_pending()[i]).cid == cid
                                && final(self).spec_behaviour() == g.0.on_swarm_event_spec(
                                FromSwarm::DialFailure(
                                    crate::behaviour::DialFailure {
                                        peer_id: old(self).spec_pending()[i].expected_peer,
                                        error: DialError::Denied(d),
                                        connection_id: cid,
                                    },
                                ),
                            )
                    },
                }
            }),
            holds_pending(old(self).spec_pending(), cid) && !(exists|i: int|
                0 <= i < old(self).spec_pending().len() && (
                #[trigger] old(self).spec_pending()[i]).cid == cid
                    && (old(self).spec_pending()[i].expected_peer matches Some(p) && p != peer)) ==> r
                == DialResolution::Established || r == DialResolution::DeniedByBehaviour,
            r != DialResolution::UnknownAttempt ==> exists|i: int|
                0 <= i < old(self).spec_pending().len() && (
                #[trigger] old(self).spec_pending()[i]).cid == cid && final(self).spec_pending()
                    == old(self).spec_pending().update(
                    i,
                    old(self).spec_pending().last(),
                ).drop_last(),
    {
        let i = match find_pending(&self.pending, cid) {
            Some(i) => i,
            None => {
                return DialResolution::UnknownAttempt;
            },
        };
        proof {
            assert(holds_pending(self.pending@, cid));
            assert forall|i2: int|
                0 <= i2 < self.pending@.len() && (#[trigger] self.pending@[i2]).cid
                    == cid implies i2 == i as int by {
                if i2 != i {
                    assert(self.pending@[i2].cid != self.pending@[i as int].cid);
                }
            }
        }
        let expected_mismatch = match self.pending[i].expected_peer {
            Some(p) => p != peer,
            None => false,
        };
        if expected_mismatch {
            let delivered = self.on_dial_failure(cid, DialError::WrongPeerId);
            return DialResolution::WrongPeer;
        }
        let gate = self.behaviour.handle_established_outbound_connection(
            cid,
            peer,
            &address,
            role_override,
            port_use,
        );
        let handler = match gate {
            Ok(h) => h,
            Err(d) => {
                let delivered = self.on_dial_failure(cid, DialError::Denied(d));
                return DialResolution::DeniedByBehaviour;
            },
        };
        let ghost prev = *self;
        let ghost prevp = self.pending@;
        let entry = self.pending.swap_remove(i);
        proof {
            assert(prevp[i as int].cid == cid);
            assert forall|x: int|
                0 <= x < self.pending@.len() implies (#[trigger] self.pending@[x]).cid != cid
                    && self.pending@[x].cid.spec_id() < self.spec_next_id() by {
                let px: int = if x == i { prevp.len() - 1 } else { x };
                assert(self.pending@[x] == prevp[px]);
                assert(px != i);
                assert(prevp[px].cid != prevp[i as int].cid);
            }
            assert forall|x: int, y: int|
                0 <= x < y < self.pending@.len() implies (#[trigger] self.pending@[x]).cid != (
            #[trigger] self.pending@[y]).cid by {
                let px: int = if x == i { prevp.len() - 1 } else { x };
                let py: int = if y == i { prevp.len() - 1 } else { y };
                assert(self.pending@[x] == prevp[px]);
                assert(self.pending@[y] == prevp[py]);
            }
            assert forall|x: int, j: int|
                0 <= x < self.pending@.len() && 0 <= j < self.conns@.len() implies (
            #[trigger] self.pending@[x]).cid != (#[trigger] self.conns@[j]).cid by {
                let px: int = if x == i { prevp.len() - 1 } else { x };
                assert(self.pending@[x] == prevp[px]);
            }
            assert forall|x: int, k: int|
                0 <= x < self.pending@.len() && 0 <= k < self.hist@.len() implies (
            #[trigger] self.hist@[k]).cid() != (#[trigger] self.pending@[x]).cid by {
                let px: int = if x == i { prevp.len() - 1 } else { x };
                assert(self.pending@[x] == prevp[px]);
            }
        }
        let endpoint = ConnectedPoint::Dialer { address, role_override, port_use };
        let ghost endg = endpoint@;
        let other_established = count_peer(&self.conns, peer);
        let event_endpoint = endpoint.duplicate();
        let ghost prevc = self.conns@;
        let conn = Connection { cid, peer, endpoint, handler, delivered: Ghost(Seq::empty()) };
        self.conns.push(conn);
        proof {
            self.hist@ = prev.history().push(Record::Established { cid, peer, endpoint: endg });
        }
        let event = FromSwarm::ConnectionEstablished(
            ConnectionEstablished {
                peer_id: peer,
                connection_id: cid,
                endpoint: event_endpoint,
                failed_addresses: Vec::new(),
                other_established,
            },
        );
        self.behaviour.on_swarm_event(&event);
        proof {
            let h = prev.history();
            let h2 = self.history();
            assert forall|k: int| 0 <= k < h.len() implies (#[trigger] h[k]).cid() != cid by {
                assert(prevp[i as int].cid == cid);
            }
            lemma_wf_hist_push_established(h, cid, peer, endg);
            assert forall|j: int|
                0 <= j < self.spec_conns().len() implies exists|k: int|
                    0 <= k < h2.len() && #[trigger] h2[k] == (Record::Established {
                        cid: (#[trigger] self.spec_conns()[j]).cid,
                        peer: self.spec_conns()[j].peer,
                        endpoint: self.spec_conns()[j].endpoint@,
                    }) by {
                if j < self.spec_conns().len() - 1 {
                    assert(self.spec_conns()[j] == prevc[j]);
                    let k = choose|k: int|
                        0 <= k < h.len() && #[trigger] h[k] == (Record::Established {
                            cid: prevc[j].cid,
                            peer: prevc[j].peer,
                            endpoint: prevc[j].endpoint@,
                        });
                    assert(h2[k] == h[k]);
                } else {
                    assert(self.spec_conns()[j].endpoint@ == endg);
                    assert(h2[h.len() as int] == (Record::Established {
                        cid,
                        peer,
                        endpoint: endg,
                    }));
                }
            }
            assert forall|j: int, k: int|
                0 <= j < self.spec_conns().len() implies !(#[trigger] closed_at(
                h2,
                k,
                (#[trigger] self.spec_conns()[j]).cid,
            )) by {
                if 0 <= k < h.len() {
                    if j < self.spec_conns().len() - 1 {
                        assert(self.spec_conns()[j] == prevc[j]);
                        assert(!closed_at(h, k, prevc[j].cid));
                    } else {
                        assert(h[k].cid() != cid);
                    }
                    assert(h2[k] == h[k]);
                } else if k == h.len() {
                    assert(h2[k] is Established);
                }
            }
            assert forall|x: int, y: int|
                0 <= x < y < self.spec_conns().len() implies (
            #[trigger] self.spec_conns()[x]).cid != (#[trigger] self.spec_conns()[y]).cid by {
                assert(self.spec_conns()[x] == prevc[x]);
                if y < self.spec_conns().len() - 1 {
                    assert(self.spec_conns()[y] == prevc[y]);
                } else {
                    assert(prevp[i as int].cid == cid);
                    assert(prevc[x].cid != prevp[i as int].cid);
                }
            }
            assert forall|x: int, j: int|
                0 <= x < self.spec_pending().len() && 0 <= j < self.spec_conns().len() implies (
            #[trigger] self.spec_pending()[x]).cid != (#[trigger] self.spec_conns()[j]).cid by {
                if j < self.spec_conns().len() - 1 {
                    assert(self.spec_conns()[j] == prevc[j]);
                } else {
                    assert(self.spec_conns()[j].cid == cid);
                }
            }
            assert forall|x: int, k: int|
                0 <= x < self.spec_pending().len() && 0 <= k < h2.len() implies (
            #[trigger] h2[k]).cid() != (#[trigger] self.spec_pending()[x]).cid by {
                if k < h.len() {
                    assert(h2[k] == h[k]);
                } else {
                    assert(h2[k].cid() == cid);
                }
            }
            assert forall|k: int|
                0 <= k < h2.len() implies (#[trigger] h2[k]).cid().spec_id()
                    < self.spec_next_id() by {
                if k < h.len() {
                    assert(h2[k] == h[k]);
                } else {
                    assert(h2[k].cid() == cid);
                    assert(prevp[i as int].cid == cid);
                }
            }
            assert forall|j: int|
                0 <= j < self.spec_conns().len() implies (
            #[trigger] self.spec_conns()[j]).cid.spec_id() < self.spec_next_id() by {
                if j < self.spec_conns().len() - 1 {
                    assert(self.spec_conns()[j] == prevc[j]);
                } else {
                    assert(self.spec_conns()[j].cid == cid);
                    assert(prevp[i as int].cid == cid);
                }
            }
            assert(self.is_open(cid, peer)) by {
                assert(self.spec_conns()[self.spec_conns().len() - 1].cid == cid);
            }
        }
        DialResolution::Established
    }

    /// Gracefully closes an open connection: it leaves the registry, its
    /// close joins the history paired with its establishment and carrying
    /// the same peer and endpoint, and the behaviour observes it. A close
    /// for an identifier that is not open is ignored.
    #[verifier::rlimit(100)]
    pub fn close_connection(&mut self, cid: ConnectionId) -> (r: bool)
        requires
            old(self).wf(),
        ensures
            final(self).wf(),
            r <==> exists|j: int|
                0 <= j < old(self).spec_conns().len() && (
                #[trigger] old(self).spec_conns()[j]).cid == cid,
            r ==> final(self).history().len() == old(self).history().len() + 1 && (final(
                self).history().last() matches Record::Closed { cid: c, .. } && c == cid),
            !r ==> final(self).history() == old(self).history() && final(self).spec_conns() == old(
                self).spec_conns() && final(self).spec_behaviour() == old(self).spec_behaviour(),
            r ==> exists|i: int|
                {
                    &&& 0 <= i < old(self).spec_conns().len()
                    &&& (#[trigger] old(self).spec_conns()[i]).cid == cid
                    &&& final(self).spec_conns() == old(self).spec_conns().update(
                        i,
                        old(self).spec_conns().last(),
                    ).drop_last()
                    &&& final(self).history() == old(self).history().push(
                        Record::Closed {
                            cid,
                            peer: old(self).spec_conns()[i].peer,
                            endpoint: old(self).spec_conns()[i].endpoint@,
                        },
                    )
                },
            r ==> exists|ev: FromSwarm|
                {
                    &&& #[trigger] old(self).spec_behaviour().on_swarm_event_spec(ev)
                        == final(self).spec_behaviour()
                    &&& ev matches FromSwarm::ConnectionClosed(cc) && cc.connection_id == cid && (
                    final(self).history().last() matches Record::Closed { peer: p2, endpoint: e2, .. }
                        && cc.peer_id == p2 && cc.endpoint@ == e2)
                },
            final(self).spec_pending() == old(self).spec_pending(),
            final(self).spec_external() == old(self).spec_external(),
            final(self).spec_next_id() == old(self).spec_next_id(),
            final(self).spec_local_peer_id() == old(self).spec_local_peer_id(),
    {
        let i = match find_conn(&self.conns, cid) {
            Some(i) => i,
            None => {
                return false;
            },
        };
        proof {
            assert forall|i2: int|
                0 <= i2 < self.conns@.len() && (#[trigger] self.conns@[i2]).cid
                    == cid implies i2 == i as int by {
                if i2 != i {
                    assert(self.conns@[i2].cid != self.conns@[i as int].cid);
                }
            }
        }
        let ghost prev = *self;
        let ghost prevc = self.conns@;
        let conn = self.conns.swap_remove(i);
        let ghost cc = prevc[i as int];
        let remaining_established = count_peer(&self.conns, conn.peer);
        proof {
            self.hist@ = prev.history().push(
                Record::Closed { cid: conn.cid, peer: conn.peer, endpoint: conn.endpoint@ },
            );
        }
        let event = FromSwarm::ConnectionClosed(
            ConnectionClosed {
                peer_id: conn.peer,
                connection_id: conn.cid,
                endpoint: conn.endpoint,
                remaining_established,
            },
        );
        self.behaviour.on_swarm_event(&event);
        proof {
            let h = prev.history();
            let h2 = self.history();
            assert(prev.spec_conns()[i as int] == cc);
            assert(self.conns@ == prevc.update(i as int, prevc.last()).drop_last());
            assert(self.behaviour == prev.spec_behaviour().on_swarm_event_spec(event));
            assert(event matches FromSwarm::ConnectionClosed(cc2) && cc2.connection_id == cid
                && cc2.peer_id == cc.peer && cc2.endpoint@ == cc.endpoint@);
            assert(exists|k: int|
                0 <= k < h.len() && #[trigger] h[k] == (Record::Established {
                    cid: cc.cid,
                    peer: cc.peer,
                    endpoint: cc.endpoint@,
                }));
            assert forall|k: int| !closed_at(h, k, cc.cid) by {
                assert(prev.spec_conns()[i as int] == cc);
            }
            lemma_wf_hist_push_closed(h, cc.cid, cc.peer, cc.endpoint@);
            assert forall|x: int|
                0 <= x < self.spec_conns().len() implies (#[trigger] self.spec_conns()[x]).cid
                    != cid by {
                let px: int = if x == i { prevc.len() - 1 } else { x };
                assert(self.spec_conns()[x] == prevc[px]);
                assert(px != i);
                assert(prevc[px].cid != prevc[i as int].cid);
            }
            assert forall|j: int|
                0 <= j < self.spec_conns().len() implies exists|k: int|
                    0 <= k < h2.len() && #[trigger] h2[k] == (Record::Established {
                        cid: (#[trigger] self.spec_conns()[j]).cid,
                        peer: self.spec_conns()[j].peer,
                        endpoint: self.spec_conns()[j].endpoint@,
                    }) by {
                let pj: int = if j == i { prevc.len() - 1 } else { j };
                assert(self.spec_conns()[j] == prevc[pj]);
                let k = choose|k: int|
                    0 <= k < h.len() && #[trigger] h[k] == (Record::Established {
                        cid: prevc[pj].cid,
                        peer: prevc[pj].peer,
                        endpoint: prevc[pj].endpoint@,
                    });
                assert(h2[k] == h[k]);
            }
            assert forall|j: int, k: int|
                0 <= j < self.spec_conns().len() implies !(#[trigger] closed_at(
                h2,
                k,
                (#[trigger] self.spec_conns()[j]).cid,
            )) by {
                let pj: int = if j == i { prevc.len() - 1 } else { j };
                assert(self.spec_conns()[j] == prevc[pj]);
                if 0 <= k < h.len() {
                    assert(!closed_at(h, k, prevc[pj].cid));
                    assert(h2[k] == h[k]);
                } else if k == h.len() {
                    assert(self.spec_conns()[j].cid != cid);
                }
            }
            assert forall|x: int, y: int|
                0 <= x < y < self.spec_conns().len() implies (
            #[trigger] self.spec_conns()[x]).cid != (#[trigger] self.spec_conns()[y]).cid by {
                let px: int = if x == i { prevc.len() - 1 } else { x };
                let py: int = if y == i { prevc.len() - 1 } else { y };
                assert(self.spec_conns()[x] == prevc[px]);
                assert(self.spec_conns()[y] == prevc[py]);
            }
            assert forall|x: int, j: int|
                0 <= x < self.spec_pending().len() && 0 <= j < self.spec_conns().len() implies (
            #[trigger] self.spec_pending()[x]).cid != (#[trigger] self.spec_conns()[j]).cid by {
                let pj: int = if j == i { prevc.len() - 1 } else { j };
                assert(self.spec_conns()[j] == prevc[pj]);
            }
            assert forall|x: int, k: int|
                0 <= x < self.spec_pending().len() && 0 <= k < h2.len() implies (
            #[trigger] h2[k]).cid() != (#[trigger] self.spec_pending()[x]).cid by {
                if k < h.len() {
                    assert(h2[k] == h[k]);
                } else {
                    assert(h2[k].cid() == cc.cid);
                    assert(prev.spec_conns()[i as int] == cc);
                }
            }
            assert forall|k: int|
                0 <= k < h2.len() implies (#[trigger] h2[k]).cid().spec_id()
                    < self.spec_next_id() by {
                if k < h.len() {
                    assert(h2[k] == h[k]);
                } else {
                    assert(h2[k].cid() == cc.cid);
                    assert(prev.spec_conns()[i as int] == cc);
                }
            }
            assert forall|j: int|
                0 <= j < self.spec_conns().len() implies (
            #[trigger] self.spec_conns()[j]).cid.spec_id() < self.spec_next_id() by {
                let pj: int = if j == i { prevc.len() - 1 } else { j };
                assert(self.spec_conns()[j] == prevc[pj]);
            }
        }
        true
    }
}

impl<B: NetworkBehaviour> Swarm<B> {
    /// Enacts a behaviour's report of a new external-address candidate:
    /// the candidate set gains the address and the behaviour observes the
    /// candidacy.
    pub fn on_external_addr_candidate(&mut self, addr: &Multiaddr)
        requires
            old(self).wf(),
        ensures
            final(self).wf(),
            crate::external_addresses::candidate_step(
                old(self).spec_external(),
                final(self).spec_external(),
                addr.spec_bytes(),
            ),
            final(self).history() == old(self).history(),
            final(self).spec_conns() == old(self).spec_conns(),
            final(self).spec_pending() == old(self).spec_pending(),
            final(self).spec_next_id() == old(self).spec_next_id(),
            final(self).spec_local_peer_id() == old(self).spec_local_peer_id(),
            exists|ev: FromSwarm|
                {
                    &&& #[trigger] old(self).spec_behaviour().on_swarm_event_spec(ev)
                        == final(self).spec_behaviour()
                    &&& ev matches FromSwarm::NewExternalAddrCandidate(e) && e.addr@ == addr@
                },
    {
        self.external.on_candidate(addr);
        let event = FromSwarm::NewExternalAddrCandidate(
            crate::behaviour::NewExternalAddrCandidate { addr: addr.duplicate() },
        );
        self.behaviour.on_swarm_event(&event);
        proof {
            assert(self.behaviour == old(self).spec_behaviour().on_swarm_event_spec(event));
            assert(event matches FromSwarm::NewExternalAddrCandidate(e) && e.addr@ == addr@);
        }
    }

    /// Enacts a behaviour's report that an address is confirmed to be
    /// externally reachable: the address enters the confirmed set (and
    /// the candidate set where it is new, so candidacy precedes
    /// confirmation) and the behaviour observes the confirmation.
    pub fn on_external_addr_confirmed(&mut self, addr: &Multiaddr)
        requires
            old(self).wf(),
        ensures
            final(self).wf(),
            crate::external_addresses::confirm_step(
                old(self).spec_external(),
                final(self).spec_external(),
                addr.spec_bytes(),
            ),
            final(self).history() == old(self).history(),
            final(self).spec_conns() == old(self).spec_conns(),
            final(self).spec_pending() == old(self).spec_pending(),
            final(self).spec_next_id() == old(self).spec_next_id(),
            final(self).spec_local_peer_id() == old(self).spec_local_peer_id(),
            exists|ev: FromSwarm|
                {
                    &&& #[trigger] old(self).spec_behaviour().on_swarm_event_spec(ev)
                        == final(self).spec_behaviour()
                    &&& ev matches FromSwarm::ExternalAddrConfirmed(e) && e.addr@ == addr@
                },
    {
        self.external.on_confirmed(addr);
        let event = FromSwarm::ExternalAddrConfirmed(
            crate::behaviour::ExternalAddrConfirmed { addr: addr.duplicate() },
        );
        self.behaviour.on_swarm_event(&event);
        proof {
            assert(self.behaviour == old(self).spec_behaviour().on_swarm_event_spec(event));
            assert(event matches FromSwarm::ExternalAddrConfirmed(e) && e.addr@ == addr@);
        }
    }

    /// Enacts a behaviour's report that an address is no longer
    /// externally reachable: the address leaves the confirmed set only,
    /// and the behaviour observes the expiry.
    pub fn on_external_addr_expired(&mut self, addr: &Multiaddr)
        requires
            old(self).wf(),
        ensures
            final(self).wf(),
            crate::external_addresses::expire_step(
                old(self).spec_external(),
                final(self).spec_external(),
                addr.spec_bytes(),
            ),
            final(self).history() == old(self).history(),
            final(self).spec_conns() == old(self).spec_conns(),
            final(self).spec_pending() == old(self).spec_pending(),
            final(self).spec_next_id() == old(self).spec_next_id(),
            final(self).spec_local_peer_id() == old(self).spec_local_peer_id(),
            exists|ev: FromSwarm|
                {
                    &&& #[trigger] old(self).spec_behaviour().on_swarm_event_spec(ev)
                        == final(self).spec_behaviour()
                    &&& ev matches FromSwarm::ExternalAddrExpired(e) && e.addr@ == addr@
                },
    {
        self.external.on_expired(addr);
        let event = FromSwarm::ExternalAddrExpired(
            crate::behaviour::ExternalAddrExpired { addr: addr.duplicate() },
        );
        self.behaviour.on_swarm_event(&event);
        proof {
            assert(self.behaviour == old(self).spec_behaviour().on_swarm_event_spec(event));
            assert(event matches FromSwarm::ExternalAddrExpired(e) && e.addr@ == addr@);
        }
    }

    /// Whether the swarm currently holds an address as confirmed.
    pub fn is_external_addr_confirmed(&self, addr: &Multiaddr) -> (r: bool)
        ensures
            r <==> self.spec_external().is_confirmed_spec(addr.spec_bytes()),
    {
        self.external.is_confirmed(addr)
    }

    /// Delivers a behaviour command to the handler of an arbitrary open
    /// connection with the peer: where one exists, its handler accepts
    /// the event exactly once; where none does, the event is silently
    /// dropped and nothing changes.
    #[verifier::rlimit(60)]
    pub fn notify_any(
        &mut self,
        peer: PeerId,
        event: <B::Handler as ConnectionHandler>::InEvent,
    ) -> (r: bool)
        requires
            old(self).wf(),
        ensures
            final(self).wf(),
            r <==> old(self).has_peer(peer),
            final(self).history() == old(self).history(),
            final(self).spec_pending() == old(self).spec_pending(),
            final(self).spec_external() == old(self).spec_external(),
            final(self).spec_next_id() == old(self).spec_next_id(),
            final(self).spec_local_peer_id() == old(self).spec_local_peer_id(),
            final(self).spec_behaviour() == old(self).spec_behaviour(),
            !r ==> final(self).spec_conns() == old(self).spec_conns(),
            r ==> exists|i: int|
                {
                    &&& 0 <= i < old(self).spec_conns().len()
                    &&& (#[trigger] old(self).spec_conns()[i]).peer == peer
                    &&& final(self).spec_conns().len() == old(self).spec_conns().len()
                    &&& final(self).spec_conns()[i].cid == old(self).spec_conns()[i].cid
                    &&& final(self).spec_conns()[i].peer == peer
                    &&& final(self).spec_conns()[i].endpoint == old(self).spec_conns()[i].endpoint
                    &&& final(self).spec_conns()[i].handler
                        == old(self).spec_conns()[i].handler.next_state(event)
                    &&& final(self).spec_conns()[i].delivered@
                        == old(self).spec_conns()[i].delivered@.push(event)
                    &&& forall|j: int|
                        0 <= j < final(self).spec_conns().len() && j != i
                            ==> final(self).spec_conns()[j] == old(self).spec_conns()[j]
                },
    {
        let i = match find_peer(&self.conns, peer) {
            Some(i) => i,
            None => {
                proof {
                    assert(!old(self).has_peer(peer));
                }
                return false;
            },
        };
        let cid = self.conns[i].cid;
        proof {
            assert(old(self).is_open(cid, peer)) by {
                assert(old(self).spec_conns()[i as int].cid == cid);
            }
            assert forall|i2: int|
                0 <= i2 < self.conns@.len() && (#[trigger] self.conns@[i2]).cid
                    == cid implies i2 == i as int by {
                if i2 != i {
                    assert(self.conns@[i2].cid != self.conns@[i as int].cid);
                }
            }
        }
        let delivered = self.notify_one(peer, cid, event);
        proof {
            assert(delivered);
            assert(old(self).has_peer(peer)) by {
                assert(old(self).spec_conns()[i as int].peer == peer);
            }
        }
        true
    }
}

impl<B: NetworkBehaviour> Swarm<B> {
    /// Pumps the handler of one connection: its next action is taken —
    /// an event is delivered to the behaviour and joins the history, a
    /// close request closes the connection and surfaces the closure, a
    /// substream request is outside this model — or nothing happens
    /// where the handler is idle or no such connection is open.
    #[verifier::rlimit(100)]
    pub fn pump_connection(&mut self, cid: ConnectionId) -> (r: Option<SwarmEvent<B::ToSwarm>>)
        requires
            old(self).wf(),
        ensures
            final(self).wf(),
            final(self).spec_pending() == old(self).spec_pending(),
            final(self).spec_external() == old(self).spec_external(),
            final(self).spec_next_id() == old(self).spec_next_id(),
            final(self).spec_local_peer_id() == old(self).spec_local_peer_id(),
            (forall|j: int|
                0 <= j < old(self).spec_conns().len()
                    ==> (#[trigger] old(self).spec_conns()[j]).cid != cid) ==> r is None && final(
                self).spec_conns() == old(self).spec_conns() && final(self).history() == old(
                self).history() && final(self).spec_behaviour() == old(self).spec_behaviour(),
            exists|i: int|
                0 <= i < old(self).spec_conns().len() && (#[trigger] old(self).spec_conns()[i]).cid
                    == cid ==> exists|i: int|
                {
                    &&& 0 <= i < old(self).spec_conns().len()
                    &&& (#[trigger] old(self).spec_conns()[i]).cid == cid
                    &&& match old(self).spec_conns()[i].handler.poll_spec().1 {
                        Option::None => {
                            &&& r is None
                            &&& final(self).history() == old(self).history()
                            &&& final(self).spec_behaviour() == old(self).spec_behaviour()
                            &&& advanced_at(old(self).spec_conns(), final(self).spec_conns(), i)
                        },
                        Option::Some(HandlerAction::RequestSubstream) => {
                            &&& r is None
                            &&& final(self).history() == old(self).history()
                            &&& final(self).spec_behaviour() == old(self).spec_behaviour()
                            &&& advanced_at(old(self).spec_conns(), final(self).spec_conns(), i)
                        },
                        Option::Some(HandlerAction::NotifyBehaviour(ev)) => {
                            &&& r is None
                            &&& final(self).history() == old(self).history().push(
                                Record::HandlerEvent {
                                    cid,
                                    peer: old(self).spec_conns()[i].peer,
                                },
                            )
                            &&& final(self).spec_behaviour()
                                == old(self).spec_behaviour().on_handler_event_spec(
                                old(self).spec_conns()[i].peer,
                                cid,
                                ev,
                            )
                            &&& advanced_at(old(self).spec_conns(), final(self).spec_conns(), i)
                        },
                        Option::Some(HandlerAction::Close) => {
                            &&& r == Some(
                                SwarmEvent::<B::ToSwarm>::ConnectionClosed {
                                    peer_id: old(self).spec_conns()[i].peer,
                                    connection_id: cid,
                                },
                            )
                            &&& final(self).history() == old(self).history().push(
                                Record::Closed {
                                    cid,
                                    peer: old(self).spec_conns()[i].peer,
                                    endpoint: old(self).spec_conns()[i].endpoint@,
                                },
                            )
                            &&& forall|j: int|
                                0 <= j < final(self).spec_conns().len()
                                    ==> (#[trigger] final(self).spec_conns()[j]).cid != cid
                            &&& final(self).spec_conns().len() == old(self).spec_conns().len() - 1
                        },
                    }
                },
    {
        let i = match find_conn(&self.conns, cid) {
            Some(i) => i,
            None => {
                return None;
            },
        };
        proof {
            assert forall|i2: int|
                0 <= i2 < self.conns@.len() && (#[trigger] self.conns@[i2]).cid
                    == cid implies i2 == i as int by {
                if i2 != i {
                    assert(self.conns@[i2].cid != self.conns@[i as int].cid);
                }
            }
        }
        let ghost prev = *self;
        let ghost prevc = self.conns@;
        let mut conn = self.conns.remove(i);
        let peer = conn.peer;
        let act = conn.handler.poll();
        self.conns.insert(i, conn);
        proof {
            assert(self.conns@ =~= prevc.update(
                i as int,
                Connection {
                    cid: prevc[i as int].cid,
                    peer: prevc[i as int].peer,
                    endpoint: prevc[i as int].endpoint,
                    handler: prevc[i as int].handler.poll_spec().0,
                    delivered: Ghost(prevc[i as int].delivered@),
                },
            ));
            assert(advanced_at(prevc, self.conns@, i as int));
            assert forall|x: int|
                0 <= x < self.spec_conns().len() implies (#[trigger] self.spec_conns()[x]).cid
                    == prevc[x].cid && self.spec_conns()[x].peer == prevc[x].peer && self
                    .spec_conns()[x].endpoint == prevc[x].endpoint by {}
            assert forall|j: int|
                0 <= j < self.spec_conns().len() implies exists|k: int|
                    0 <= k < self.history().len() && #[trigger] self.history()[k] == (
                    Record::Established {
                        cid: (#[trigger] self.spec_conns()[j]).cid,
                        peer: self.spec_conns()[j].peer,
                        endpoint: self.spec_conns()[j].endpoint@,
                    }) by {
                let k = choose|k: int|
                    0 <= k < self.history().len() && #[trigger] self.history()[k] == (
                    Record::Established {
                        cid: prevc[j].cid,
                        peer: prevc[j].peer,
                        endpoint: prevc[j].endpoint@,
                    });
                assert(self.history()[k] == (Record::Established {
                    cid: self.spec_conns()[j].cid,
                    peer: self.spec_conns()[j].peer,
                    endpoint: self.spec_conns()[j].endpoint@,
                }));
            }
            assert forall|j: int, k: int|
                0 <= j < self.spec_conns().len() implies !(#[trigger] closed_at(
                self.history(),
                k,
                (#[trigger] self.spec_conns()[j]).cid,
            )) by {
                assert(!closed_at(self.history(), k, prevc[j].cid));
            }
            assert forall|x: int, y: int|
                0 <= x < y < self.spec_conns().len() implies (
            #[trigger] self.spec_conns()[x]).cid != (#[trigger] self.spec_conns()[y]).cid by {
                assert(prevc[x].cid != prevc[y].cid);
            }
            assert forall|x: int, j: int|
                0 <= x < self.spec_pending().len() && 0 <= j < self.spec_conns().len() implies (
            #[trigger] self.spec_pending()[x]).cid != (#[trigger] self.spec_conns()[j]).cid by {
                assert(self.spec_pending()[x].cid != prevc[j].cid);
            }
            assert forall|j: int|
                0 <= j < self.spec_conns().len() implies (
            #[trigger] self.spec_conns()[j]).cid.spec_id() < self.spec_next_id() by {
                assert(prevc[j].cid.spec_id() < self.spec_next_id());
            }
        }
        match act {
            Option::None => Option::None,
            Option::Some(HandlerAction::RequestSubstream) => Option::None,
            Option::Some(HandlerAction::NotifyBehaviour(ev)) => {
                let ghost mid = *self;
                let ghost h = self.history();
                proof {
                    assert(self.spec_conns()[i as int].cid == cid && self.spec_conns()[
                        i as int].peer == peer);
                    let k = choose|k: int|
                        0 <= k < h.len() && #[trigger] h[k] == (Record::Established {
                            cid: self.spec_conns()[i as int].cid,
                            peer: self.spec_conns()[i as int].peer,
                            endpoint: self.spec_conns()[i as int].endpoint@,
                        });
                    assert(h[k] matches Record::Established { cid: c, peer: p, .. } && c == cid
                        && p == peer);
                    assert forall|k2: int| !closed_at(h, k2, cid) by {
                        assert(!closed_at(h, k2, (self.spec_conns()[i as int]).cid));
                    }
                    lemma_wf_hist_push_handler(h, cid, peer);
                    self.hist@ = h.push(Record::HandlerEvent { cid, peer });
                    let h2 = self.history();
                    assert forall|j: int|
                        0 <= j < self.spec_conns().len() implies exists|k2: int|
                            0 <= k2 < h2.len() && #[trigger] h2[k2] == (Record::Established {
                                cid: (#[trigger] self.spec_conns()[j]).cid,
                                peer: self.spec_conns()[j].peer,
                                endpoint: self.spec_conns()[j].endpoint@,
                            }) by {
                        let k2 = choose|k2: int|
                            0 <= k2 < h.len() && #[trigger] h[k2] == (Record::Established {
                                cid: self.spec_conns()[j].cid,
                                peer: self.spec_conns()[j].peer,
                                endpoint: self.spec_conns()[j].endpoint@,
                            });
                        assert(h2[k2] == h[k2]);
                    }
                    assert forall|j: int, k2: int|
                        0 <= j < self.spec_conns().len() implies !(#[trigger] closed_at(
                        h2,
                        k2,
                        (#[trigger] self.spec_conns()[j]).cid,
                    )) by {
                        if 0 <= k2 < h.len() {
                            assert(!closed_at(h, k2, self.spec_conns()[j].cid));
                            assert(h2[k2] == h[k2]);
                        } else if k2 == h.len() {
                            assert(h2[k2] is HandlerEvent);
                        }
                    }
                    assert forall|x: int, k2: int|
                        0 <= x < self.spec_pending().len() && 0 <= k2 < h2.len() implies (
                    #[trigger] h2[k2]).cid() != (#[trigger] self.spec_pending()[x]).cid by {
                        if k2 < h.len() {
                            assert(h2[k2] == h[k2]);
                        } else {
                            assert(h2[k2].cid() == cid);
                            assert(self.spec_pending()[x].cid != self.spec_conns()[i as int].cid);
                        }
                    }
                    assert forall|k2: int|
                        0 <= k2 < h2.len() implies (#[trigger] h2[k2]).cid().spec_id()
                            < self.spec_next_id() by {
                        if k2 < h.len() {
                            assert(h2[k2] == h[k2]);
                        } else {
                            assert(h2[k2].cid() == self.spec_conns()[i as int].cid);
                        }
                    }
                }
                self.behaviour.on_connection_handler_event(peer, cid, ev);
                Option::None
            },
            Option::Some(HandlerAction::Close) => {
                let ghost mid = *self;
                let closed = self.close_connection(cid);
                proof {
                    assert(closed) by {
                        assert(mid.spec_conns()[i as int].cid == cid);
                    }
                    let i2 = choose|i2: int|
                        {
                            &&& 0 <= i2 < mid.spec_conns().len()
                            &&& (#[trigger] mid.spec_conns()[i2]).cid == cid
                            &&& self.spec_conns() == mid.spec_conns().update(
                                i2,
                                mid.spec_conns().last(),
                            ).drop_last()
                            &&& self.history() == mid.history().push(
                                Record::Closed {
                                    cid,
                                    peer: mid.spec_conns()[i2].peer,
                                    endpoint: mid.spec_conns()[i2].endpoint@,
                                },
                            )
                        };
                    assert(i2 == i as int) by {
                        if i2 != i {
                            assert(mid.spec_conns()[i2].cid != mid.spec_conns()[i as int].cid);
                        }
                    }
                    assert(mid.spec_conns()[i as int].peer == prevc[i as int].peer);
                    assert(mid.spec_conns()[i as int].endpoint@ == prevc[i as int].endpoint@);
                    assert forall|j: int|
                        0 <= j < self.spec_conns().len() implies (
                    #[trigger] self.spec_conns()[j]).cid != cid by {
                        let pj: int = if j == i2 {
                            mid.spec_conns().len() - 1
                        } else {
                            j
                        };
                        assert(self.spec_conns()[j] == mid.spec_conns()[pj]);
                        assert(pj != i2);
                        assert(mid.spec_conns()[pj].cid != mid.spec_conns()[i2].cid);
                    }
                }
                Option::Some(SwarmEvent::ConnectionClosed { peer_id: peer, connection_id: cid })
            },
        }
    }
}

/// Whether the connections moved from `pre` to `post` by one poll of the
/// handler at `i`: that handler advanced by its own transition, its
/// delivered log and every other connection unchanged.
pub open spec fn advanced_at<H: ConnectionHandler>(
    pre: Seq<Connection<H>>,
    post: Seq<Connection<H>>,
    i: int,
) -> bool {
    &&& post.len() == pre.len()
    &&& 0 <= i < pre.len()
    &&& post[i].cid == pre[i].cid
    &&& post[i].peer == pre[i].peer
    &&& post[i].endpoint == pre[i].endpoint
    &&& post[i].handler == pre[i].handler.poll_spec().0
    &&& post[i].delivered == pre[i].delivered
    &&& forall|j: int| 0 <= j < post.len() && j != i ==> post[j] == pre[j]
}

/// How a reported incoming connection was handled.
#[derive(Clone, Copy, Debug, PartialEq, Eq, Structural)]
pub enum IncomingResolution {
    /// The connection is established and the behaviour observed it.
    Established,
    /// The behaviour refused the pending connection; it observed the
    /// failure.
    DeniedPending,
    /// The behaviour refused to build a handler; it observed the
    /// failure.
    DeniedEstablished,
}

impl<B: NetworkBehaviour> Swarm<B> {
    /// Reports an incoming connection that authenticated as `peer`,
    /// framed by the local listen address and the remote's dial-back
    /// address. A fresh identifier is issued; the behaviour gates the
    /// pending connection and then builds the handler. Where both gates
    /// accept, the connection becomes open, its establishment joins the
    /// history, and the behaviour observes it; where either refuses, the
    /// behaviour observes the failure instead.
    #[verifier::rlimit(100)]
    pub fn on_incoming_connection(
        &mut self,
        peer: PeerId,
        local_addr: Multiaddr,
        send_back_addr: Multiaddr,
    ) -> (r: (IncomingResolution, ConnectionId))
        requires
            old(self).wf(),
            old(self).spec_next_id() < u64::MAX,
        ensures
            final(self).wf(),
            r.1.spec_id() == old(self).spec_next_id(),
            final(self).spec_next_id() == old(self).spec_next_id() + 1,
            final(self).spec_pending() == old(self).spec_pending(),
            final(self).spec_external() == old(self).spec_external(),
            final(self).spec_local_peer_id() == old(self).spec_local_peer_id(),
            ({
                let g1 = old(self).spec_behaviour().pending_inbound_spec(
                    r.1,
                    local_addr@,
                    send_back_addr@,
                );
                match g1.1 {
                    Ok(u) => {
                        let g2 = g1.0.establish_inbound_spec(r.1, peer, local_addr@,
                            send_back_addr@);
                        match g2.1 {
                            Ok(h) => {
                                &&& r.0 == IncomingResolution::Established
                                &&& final(self).spec_conns().len() == old(
                                    self).spec_conns().len() + 1
                                &&& forall|j: int|
                                    0 <= j < old(self).spec_conns().len()
                                        ==> final(self).spec_conns()[j]
                                        == old(self).spec_conns()[j]
                                &&& final(self).spec_conns().last().cid == r.1
                                &&& final(self).spec_conns().last().peer == peer
                                &&& final(self).spec_conns().last().endpoint@
                                    == (SpecConnectedPoint::Listener {
                                    local_addr: local_addr@,
                                    send_back_addr: send_back_addr@,
                                })
                                &&& final(self).spec_conns().last().handler == h
                                &&& final(self).spec_conns().last().delivered@.len() == 0
                                &&& final(self).history() == old(self).history().push(
                                    Record::Established {
                                        cid: r.1,
                                        peer,
                                        endpoint: SpecConnectedPoint::Listener {
                                            local_addr: local_addr@,
                                            send_back_addr: send_back_addr@,
                                        },
                                    },
                                )
                                &&& exists|ev: FromSwarm|
                                    {
                                        &&& #[trigger] g2.0.on_swarm_event_spec(ev)
                                            == final(self).spec_behaviour()
                                        &&& ev matches FromSwarm::ConnectionEstablished(ce)
                                            && ce.peer_id == peer && ce.connection_id == r.1
                                            && ce.endpoint@ == (SpecConnectedPoint::Listener {
                                            local_addr: local_addr@,
                                            send_back_addr: send_back_addr@,
                                        })
                                    }
                            },
                            Err(d) => {
                                &&& r.0 == IncomingResolution::DeniedEstablished
                                &&& final(self).spec_conns() == old(self).spec_conns()
                                &&& final(self).history() == old(self).history()
                                &&& exists|ev: FromSwarm|
                                    {
                                        &&& #[trigger] g2.0.on_swarm_event_spec(ev)
                                            == final(self).spec_behaviour()
                                        &&& ev matches FromSwarm::ListenFailure(lf)
                                            && lf.connection_id == r.1 && lf.local_addr@
                                            == local_addr@ && lf.send_back_addr@
                                            == send_back_addr@ && lf.error
                                            == crate::connection::ListenError::Denied(d)
                                    }
                            },
                        }
                    },
                    Err(d) => {
                        &&& r.0 == IncomingResolution::DeniedPending
                        &&& final(self).spec_conns() == old(self).spec_conns()
                        &&& final(self).history() == old(self).history()
                        &&& exists|ev: FromSwarm|
                            {
                                &&& #[trigger] g1.0.on_swarm_event_spec(ev)
                                    == final(self).spec_behaviour()
                                &&& ev matches FromSwarm::ListenFailure(lf) && lf.connection_id
                                    == r.1 && lf.local_addr@ == local_addr@ && lf.send_back_addr@
                                    == send_back_addr@ && lf.error
                                    == crate::connection::ListenError::Denied(d)
                            }
                    },
                }
            }),
    {
        let cid = ConnectionId::new(self.next_id);
        self.next_id = self.next_id + 1;
        let ghost prev = *self;
        proof {
            assert forall|k: int|
                0 <= k < self.history().len() implies (#[trigger] self.history()[k]).cid()
                    != cid by {}
            assert forall|j: int|
                0 <= j < self.spec_conns().len() implies (#[trigger] self.spec_conns()[j]).cid
                    != cid by {}
            assert forall|x: int|
                0 <= x < self.spec_pending().len() implies (#[trigger] self.spec_pending()[x]).cid
                    != cid by {}
        }
        let gate1 = self.behaviour.handle_pending_inbound_connection(
            cid,
            &local_addr,
            &send_back_addr,
        );
        match gate1 {
            Ok(()) => {},
            Err(d) => {
                let ghost dg = d;
                let event = FromSwarm::ListenFailure(
                    crate::behaviour::ListenFailure {
                        local_addr,
                        send_back_addr,
                        error: crate::connection::ListenError::Denied(d),
                        connection_id: cid,
                    },
                );
                self.behaviour.on_swarm_event(&event);
                proof {
                    assert(event matches FromSwarm::ListenFailure(lf) && lf.connection_id == cid
                        && lf.error == crate::connection::ListenError::Denied(dg));
                }
                return (IncomingResolution::DeniedPending, cid);
            },
        }
        let gate2 = self.behaviour.handle_established_inbound_connection(
            cid,
            peer,
            &local_addr,
            &send_back_addr,
        );
        let handler = match gate2 {
            Ok(h) => h,
            Err(d) => {
                let ghost dg = d;
                let event = FromSwarm::ListenFailure(
                    crate::behaviour::ListenFailure {
                        local_addr,
                        send_back_addr,
                        error: crate::connection::ListenError::Denied(d),
                        connection_id: cid,
                    },
                );
                self.behaviour.on_swarm_event(&event);
                proof {
                    assert(event matches FromSwarm::ListenFailure(lf) && lf.connection_id == cid
                        && lf.error == crate::connection::ListenError::Denied(dg));
                }
                return (IncomingResolution::DeniedEstablished, cid);
            },
        };
        let endpoint = ConnectedPoint::Listener { local_addr, send_back_addr };
        let ghost endg = endpoint@;
        let other_established = count_peer(&self.conns, peer);
        let event_endpoint = endpoint.duplicate();
        let ghost prevc = self.conns@;
        let conn = Connection { cid, peer, endpoint, handler, delivered: Ghost(Seq::empty()) };
        self.conns.push(conn);
        proof {
            self.hist@ = prev.history().push(Record::Established { cid, peer, endpoint: endg });
        }
        let event = FromSwarm::ConnectionEstablished(
            ConnectionEstablished {
                peer_id: peer,
                connection_id: cid,
                endpoint: event_endpoint,
                failed_addresses: Vec::new(),
                other_established,
            },
        );
        self.behaviour.on_swarm_event(&event);
        proof {
            let h = prev.history();
            let h2 = self.history();
            lemma_wf_hist_push_established(h, cid, peer, endg);
            assert forall|j: int|
                0 <= j < self.spec_conns().len() implies exists|k: int|
                    0 <= k < h2.len() && #[trigger] h2[k] == (Record::Established {
                        cid: (#[trigger] self.spec_conns()[j]).cid,
                        peer: self.spec_conns()[j].peer,
                        endpoint: self.spec_conns()[j].endpoint@,
                    }) by {
                if j < self.spec_conns().len() - 1 {
                    assert(self.spec_conns()[j] == prevc[j]);
                    let k = choose|k: int|
                        0 <= k < h.len() && #[trigger] h[k] == (Record::Established {
                            cid: prevc[j].cid,
                            peer: prevc[j].peer,
                            endpoint: prevc[j].endpoint@,
                        });
                    assert(h2[k] == h[k]);
                } else {
                    assert(self.spec_conns()[j].endpoint@ == endg);
                    assert(h2[h.len() as int] == (Record::Established {
                        cid,
                        peer,
                        endpoint: endg,
                    }));
                }
            }
            assert forall|j: int, k: int|
                0 <= j < self.spec_conns().len() implies !(#[trigger] closed_at(
                h2,
                k,
                (#[trigger] self.spec_conns()[j]).cid,
            )) by {
                if 0 <= k < h.len() {
                    if j < self.spec_conns().len() - 1 {
                        assert(self.spec_conns()[j] == prevc[j]);
                        assert(!closed_at(h, k, prevc[j].cid));
                    } else {
                        assert(h[k].cid() != cid);
                    }
                    assert(h2[k] == h[k]);
                } else if k == h.len() {
                    assert(h2[k] is Established);
                }
            }
            assert forall|x: int, y: int|
                0 <= x < y < self.spec_conns().len() implies (
            #[trigger] self.spec_conns()[x]).cid != (#[trigger] self.spec_conns()[y]).cid by {
                assert(self.spec_conns()[x] == prevc[x]);
                if y < self.spec_conns().len() - 1 {
                    assert(self.spec_conns()[y] == prevc[y]);
                } else {
                    assert(prevc[x].cid.spec_id() < cid.spec_id());
                }
            }
            assert forall|x: int, j: int|
                0 <= x < self.spec_pending().len() && 0 <= j < self.spec_conns().len() implies (
            #[trigger] self.spec_pending()[x]).cid != (#[trigger] self.spec_conns()[j]).cid by {
                if j < self.spec_conns().len() - 1 {
                    assert(self.spec_conns()[j] == prevc[j]);
                } else {
                    assert(self.spec_conns()[j].cid == cid);
                    assert(self.spec_pending()[x].cid.spec_id() < cid.spec_id());
                }
            }
            assert forall|x: int, k: int|
                0 <= x < self.spec_pending().len() && 0 <= k < h2.len() implies (
            #[trigger] h2[k]).cid() != (#[trigger] self.spec_pending()[x]).cid by {
                if k < h.len() {
                    assert(h2[k] == h[k]);
                } else {
                    assert(h2[k].cid() == cid);
                    assert(self.spec_pending()[x].cid.spec_id() < cid.spec_id());
                }
            }
            assert forall|k: int|
                0 <= k < h2.len() implies (#[trigger] h2[k]).cid().spec_id()
                    < self.spec_next_id() by {
                if k < h.len() {
                    assert(h2[k] == h[k]);
                } else {
                    assert(h2[k].cid() == cid);
                }
            }
            assert forall|j: int|
                0 <= j < self.spec_conns().len() implies (
            #[trigger] self.spec_conns()[j]).cid.spec_id() < self.spec_next_id() by {
                if j < self.spec_conns().len() - 1 {
                    assert(self.spec_conns()[j] == prevc[j]);
                } else {
                    assert(self.spec_conns()[j].cid == cid);
                }
            }
            assert(event matches FromSwarm::ConnectionEstablished(ce) && ce.peer_id == peer
                && ce.connection_id == cid && ce.endpoint@ == endg);
        }
        (IncomingResolution::Established, cid)
    }
}

/// The position of the first connection to `peer`, if any.
fn find_peer<H: ConnectionHandler>(conns: &Vec<Connection<H>>, peer: PeerId) -> (r: Option<usize>)
    ensures
        match r {
            Some(i) => i < conns@.len() && conns@[i as int].peer == peer,
            None => forall|j: int| 0 <= j < conns@.len() ==> (#[trigger] conns@[j]).peer != peer,
        },
{
    let mut i: usize = 0;
    while i < conns.len()
        invariant
            0 <= i <= conns@.len(),
            forall|j: int| 0 <= j < i ==> (#[trigger] conns@[j]).peer != peer,
        decreases conns@.len() - i,
    {
        if conns[i].peer == peer {
            return Some(i);
        }
        i += 1;
    }
    None
}

/// Whether `v` holds a pending dial with identifier `cid`.
pub open spec fn holds_pending(v: Seq<PendingDial>, cid: ConnectionId) -> bool {
    exists|i: int| 0 <= i < v.len() && (#[trigger] v[i]).cid == cid
}

/// How a reported dial resolution was handled.
#[derive(Clone, Copy, Debug, PartialEq, Eq, Structural)]
pub enum DialResolution {
    /// The connection is established and the behaviour observed it.
    Established,
    /// The remote authenticated as a different peer than expected; the
    /// behaviour observed a dial failure.
    WrongPeer,
    /// The behaviour refused the connection; it observed a dial failure.
    DeniedByBehaviour,
    /// No dial with that identifier is pending; nothing changed.
    UnknownAttempt,
}

/// How many connections in `conns` are open to `peer`.
fn count_peer<H: ConnectionHandler>(conns: &Vec<Connection<H>>, peer: PeerId) -> usize {
    let mut i: usize = 0;
    let mut n: usize = 0;
    while i < conns.len()
        invariant
            0 <= i <= conns@.len(),
            n <= i,
        decreases conns@.len() - i,
    {
        if conns[i].peer == peer {
            n += 1;
        }
        i += 1;
    }
    n
}

/// The position of the connection with identifier `cid`, if any.
fn find_conn<H: ConnectionHandler>(conns: &Vec<Connection<H>>, cid: ConnectionId) -> (r: Option<
    usize,
>)
    ensures
        match r {
            Some(i) => i < conns@.len() && conns@[i as int].cid == cid,
            None => forall|j: int| 0 <= j < conns@.len() ==> (#[trigger] conns@[j]).cid != cid,
        },
{
    let mut i: usize = 0;
    while i < conns.len()
        invariant
            0 <= i <= conns@.len(),
            forall|j: int| 0 <= j < i ==> (#[trigger] conns@[j]).cid != cid,
        decreases conns@.len() - i,
    {
        if conns[i].cid == cid {
            return Some(i);
        }
        i += 1;
    }
    None
}

/// The position of the pending dial with identifier `cid`, if any.
fn find_pending(pending: &Vec<PendingDial>, cid: ConnectionId) -> (r: Option<usize>)
    ensures
        match r {
            Some(i) => i < pending@.len() && pending@[i as int].cid == cid,
            None => !holds_pending(pending@, cid),
        },
{
    let mut i: usize = 0;
    while i < pending.len()
        invariant
            0 <= i <= pending@.len(),
            forall|j: int| 0 <= j < i ==> (#[trigger] pending@[j]).cid != cid,
        decreases pending@.len() - i,
    {
        if pending[i].cid == cid {
            return Some(i);
        }
        i += 1;
    }
    None
}

} // verus!
