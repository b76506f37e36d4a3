//! Identity of a peer: a keypair handle and the peer identifier derived
//! from its public half.
//!
//! Key material itself is outside the scope of this core: a keypair is an
//! opaque handle whose public half determines the peer identifier. The
//! derivation is modelled as an injective function of the public key.

use vstd::prelude::*;

verus! {

/// Relies on rand::random: draws a machine word of randomness; nothing is
/// promised of the value.
#[verifier::external_body]
fn random_u64() -> u64 {
    rand::random()
}

/// A keypair handle. The public half is all the swarm core ever reads.
#[derive(Clone, Copy, Debug, PartialEq, Eq, Structural)]
pub struct Keypair {
    public: u64,
}

/// The public half of a keypair.
#[derive(Clone, Copy, Debug, PartialEq, Eq, Structural)]
pub struct PublicKey {
    key: u64,
}

/// Content-addressed identifier of a peer, derived from its public key.
#[derive(Clone, Copy, Debug, PartialEq, Eq, Structural)]
pub struct PeerId {
    id: u64,
}

impl Keypair {
    /// The public half of this keypair.
    pub closed spec fn spec_public(self) -> PublicKey {
        PublicKey { key: self.public }
    }

    /// Draws a fresh keypair. Nothing is known of the value drawn.
    pub fn generate() -> Keypair {
        Keypair { public: random_u64() }
    }

    /// Builds the keypair handle whose public half is the given word.
    pub fn from_public(public: u64) -> (r: Keypair)
        ensures
            r.spec_public().spec_key() == public,
    {
        Keypair { public }
    }

    /// The public half of this keypair.
    pub fn public(&self) -> (r: PublicKey)
        ensures
            r == self.spec_public(),
    {
        PublicKey { key: self.public }
    }
}

impl PublicKey {
    /// The raw word behind the key handle.
    pub closed spec fn spec_key(self) -> u64 {
        self.key
    }

    /// Derives the peer identifier of this key. The derivation is an
    /// injective function of the key, so equal identifiers mean equal keys.
    pub fn to_peer_id(&self) -> (r: PeerId)
        ensures
            r == self.spec_peer_id(),
            r.spec_id() == self.spec_key(),
    {
        PeerId { id: self.key }
    }

    /// The peer identifier this key derives to.
    pub closed spec fn spec_peer_id(self) -> PeerId {
        PeerId { id: self.spec_key() }
    }
}

impl PeerId {
    /// The raw number behind the identifier.
    pub closed spec fn spec_id(self) -> u64 {
        self.id
    }

    /// Builds a peer identifier with a given raw number.
    pub fn new(id: u64) -> (r: PeerId)
        ensures
            r.spec_id() == id,
    {
        PeerId { id }
    }

    /// The raw number behind the identifier.
    pub fn id(self) -> (r: u64)
        ensures
            r == self.spec_id(),
    {
        self.id
    }
}

/// Equal peer identifiers come from equal public keys: the derivation in
/// [`PublicKey::spec_peer_id`] is injective.
pub proof fn lemma_peer_id_injective(a: PublicKey, b: PublicKey)
    requires
        a.spec_peer_id() == b.spec_peer_id(),
    ensures
        a == b,
{
}

} // verus!
