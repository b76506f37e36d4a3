//! The external-address bookkeeping of a node: the candidates that were
//! broadcast, and the subset confirmed to be externally reachable.
//!
//! Invariant: an address is confirmed only if it was first seen as a
//! candidate, and expiry removes it from the confirmed set only.

use vstd::prelude::*;

use crate::multiaddr::Multiaddr;

verus! {

/// Whether `v` holds an address with the textual form `b`.
pub open spec fn holds_bytes(v: Seq<Multiaddr>, b: Seq<u8>) -> bool {
    exists|i: int| 0 <= i < v.len() && (#[trigger] v[i]).spec_bytes() == b
}

/// Whether an address of `v` with the textual form `b` stands at `i`.
fn find_addr(v: &Vec<Multiaddr>, addr: &Multiaddr) -> (r: bool)
    ensures
        r <==> holds_bytes(v@, addr.spec_bytes()),
{
    let mut i: usize = 0;
    while i < v.len()
        invariant
            0 <= i <= v@.len(),
            forall|j: int| 0 <= j < i ==> (#[trigger] v@[j]).spec_bytes() != addr.spec_bytes(),
        decreases v@.len() - i,
    {
        if v[i].same_as(addr) {
            return true;
        }
        i += 1;
    }
    false
}

/// The candidate and confirmed external addresses of a node.
#[derive(Debug)]
pub struct ExternalAddresses {
    candidates: Vec<Multiaddr>,
    confirmed: Vec<Multiaddr>,
}

impl ExternalAddresses {
    /// Whether an address with the textual form `b` was ever broadcast
    /// as a candidate.
    pub closed spec fn seen_candidate(self, b: Seq<u8>) -> bool {
        holds_bytes(self.candidates@, b)
    }

    /// Whether an address with the textual form `b` is confirmed.
    pub closed spec fn is_confirmed_spec(self, b: Seq<u8>) -> bool {
        holds_bytes(self.confirmed@, b)
    }

    /// How many addresses are confirmed.
    pub closed spec fn confirmed_count(self) -> nat {
        self.confirmed@.len()
    }

    /// Validity: every confirmed address was seen as a candidate, and no
    /// address is held twice in the confirmed set.
    pub closed spec fn wf(self) -> bool {
        &&& forall|b: Seq<u8>| #[trigger] self.is_confirmed_spec(b) ==> self.seen_candidate(b)
        &&& forall|i: int, j: int|
            0 <= i < j < self.confirmed@.len() ==> (#[trigger] self.confirmed@[i]).spec_bytes()
                != (#[trigger] self.confirmed@[j]).spec_bytes()
    }

    /// An empty set: nothing seen, nothing confirmed.
    pub fn new() -> (r: ExternalAddresses)
        ensures
            r.wf(),
            forall|b: Seq<u8>| !r.seen_candidate(b),
            forall|b: Seq<u8>| !r.is_confirmed_spec(b),
    {
        ExternalAddresses { candidates: Vec::new(), confirmed: Vec::new() }
    }

    /// Records a broadcast candidate. The confirmed set is untouched.
    pub fn on_candidate(&mut self, addr: &Multiaddr)
        requires
            old(self).wf(),
        ensures
            final(self).wf(),
            forall|b: Seq<u8>|
                final(self).seen_candidate(b) <==> old(self).seen_candidate(b) || b
                    == addr.spec_bytes(),
            forall|b: Seq<u8>|
                final(self).is_confirmed_spec(b) <==> old(self).is_confirmed_spec(b),
    {
        if !find_addr(&self.candidates, addr) {
            let ghost prev = self.candidates@;
            self.candidates.push(addr.duplicate());
            proof {
                assert forall|b: Seq<u8>|
                    holds_bytes(self.candidates@, b) <==> holds_bytes(prev, b) || b
                        == addr.spec_bytes() by {
                    if holds_bytes(prev, b) {
                        let i = choose|i: int|
                            0 <= i < prev.len() && (#[trigger] prev[i]).spec_bytes() == b;
                        assert(self.candidates@[i].spec_bytes() == b);
                    }
                    if b == addr.spec_bytes() {
                        assert(self.candidates@[prev.len() as int].spec_bytes() == b);
                    }
                    if holds_bytes(self.candidates@, b) {
                        let i = choose|i: int|
                            0 <= i < self.candidates@.len() && (
                            #[trigger] self.candidates@[i]).spec_bytes() == b;
                        if i < prev.len() {
                            assert(prev[i].spec_bytes() == b);
                        }
                    }
                }
            }
        } else {
            proof {
                assert forall|b: Seq<u8>|
                    self.seen_candidate(b) <==> old(self).seen_candidate(b) || b
                        == addr.spec_bytes() by {}
            }
        }
        proof {
            assert(self.confirmed@ == old(self).confirmed@);
            assert forall|b: Seq<u8>| #[trigger] self.is_confirmed_spec(b) implies self
                .seen_candidate(b) by {
                assert(old(self).is_confirmed_spec(b));
                assert(old(self).seen_candidate(b));
            }
        }
    }

    /// Records a confirmation. The address enters the candidate set too
    /// where it is new, so that confirmation never precedes candidacy.
    pub fn on_confirmed(&mut self, addr: &Multiaddr)
        requires
            old(self).wf(),
        ensures
            final(self).wf(),
            forall|b: Seq<u8>|
                final(self).seen_candidate(b) <==> old(self).seen_candidate(b) || b
                    == addr.spec_bytes(),
            forall|b: Seq<u8>|
                final(self).is_confirmed_spec(b) <==> old(self).is_confirmed_spec(b) || b
                    == addr.spec_bytes(),
    {
        self.on_candidate(addr);
        let ghost mid = *self;
        if !find_addr(&self.confirmed, addr) {
            let ghost prev = self.confirmed@;
            self.confirmed.push(addr.duplicate());
            proof {
                assert forall|b: Seq<u8>|
                    holds_bytes(self.confirmed@, b) <==> holds_bytes(prev, b) || b
                        == addr.spec_bytes() by {
                    if holds_bytes(prev, b) {
                        let i = choose|i: int|
                            0 <= i < prev.len() && (#[trigger] prev[i]).spec_bytes() == b;
                        assert(self.confirmed@[i].spec_bytes() == b);
                    }
                    if b == addr.spec_bytes() {
                        assert(self.confirmed@[prev.len() as int].spec_bytes() == b);
                    }
                    if holds_bytes(self.confirmed@, b) {
                        let i = choose|i: int|
                            0 <= i < self.confirmed@.len() && (
                            #[trigger] self.confirmed@[i]).spec_bytes() == b;
                        if i < prev.len() {
                            assert(prev[i].spec_bytes() == b);
                        }
                    }
                }
                assert forall|i: int, j: int|
                    0 <= i < j < self.confirmed@.len() implies (
                #[trigger] self.confirmed@[i]).spec_bytes() != (
                #[trigger] self.confirmed@[j]).spec_bytes() by {
                    if j == self.confirmed@.len() - 1 {
                        assert(prev[i].spec_bytes() == self.confirmed@[i].spec_bytes());
                        assert(!holds_bytes(prev, addr.spec_bytes()));
                    } else {
                        assert(prev[i].spec_bytes() == self.confirmed@[i].spec_bytes());
                        assert(prev[j].spec_bytes() == self.confirmed@[j].spec_bytes());
                    }
                }
            }
        }
        proof {
            assert(self.candidates@ == mid.candidates@);
            assert forall|b: Seq<u8>| #[trigger] self.is_confirmed_spec(b) implies self
                .seen_candidate(b) by {
                assert(holds_bytes(mid.confirmed@, b) || b == addr.spec_bytes());
                if holds_bytes(mid.confirmed@, b) {
                    assert(mid.is_confirmed_spec(b));
                    assert(mid.seen_candidate(b));
                } else {
                    assert(mid.seen_candidate(b));
                }
                assert(holds_bytes(self.candidates@, b));
            }
        }
    }

    /// Records an expiry: the address leaves the confirmed set only; the
    /// candidates seen are kept.
    pub fn on_expired(&mut self, addr: &Multiaddr)
        requires
            old(self).wf(),
        ensures
            final(self).wf(),
            forall|b: Seq<u8>|
                final(self).seen_candidate(b) <==> old(self).seen_candidate(b),
            forall|b: Seq<u8>|
                final(self).is_confirmed_spec(b) <==> old(self).is_confirmed_spec(b) && b
                    != addr.spec_bytes(),
    {
        let ghost prev = self.confirmed@;
        let mut kept: Vec<Multiaddr> = Vec::new();
        let mut i: usize = 0;
        while i < self.confirmed.len()
            invariant
                0 <= i <= self.confirmed@.len(),
                self.confirmed@ == prev,
                forall|x: int, y: int|
                    0 <= x < y < prev.len() ==> (#[trigger] prev[x]).spec_bytes() != (
                    #[trigger] prev[y]).spec_bytes(),
                forall|x: int|
                    0 <= x < kept@.len() ==> (#[trigger] kept@[x]).spec_bytes()
                        != addr.spec_bytes(),
                forall|b: Seq<u8>|
                    #[trigger] holds_bytes(kept@, b) <==> (holds_bytes(prev.subrange(0, i as int), b)
                        && b != addr.spec_bytes()),
                forall|x: int, y: int|
                    0 <= x < y < kept@.len() ==> (#[trigger] kept@[x]).spec_bytes() != (
                    #[trigger] kept@[y]).spec_bytes(),
            decreases self.confirmed@.len() - i,
        {
            let ghost kept_prev = kept@;
            if !self.confirmed[i].same_as(addr) {
                kept.push(self.confirmed[i].duplicate());
                proof {
                    assert forall|x: int| 0 <= x < kept_prev.len() implies (
                    #[trigger] kept@[x]).spec_bytes() != prev[i as int].spec_bytes() by {
                        assert(kept@[x] == kept_prev[x]);
                        assert(holds_bytes(kept_prev, kept_prev[x].spec_bytes()));
                        let y = choose|y: int|
                            0 <= y < i && (#[trigger] prev.subrange(0, i as int)[y]).spec_bytes()
                                == kept_prev[x].spec_bytes();
                        assert(prev[y].spec_bytes() == kept_prev[x].spec_bytes());
                    }
                }
            }
            proof {
                let sub1 = prev.subrange(0, i as int + 1);
                let sub0 = prev.subrange(0, i as int);
                assert(sub1.drop_last() =~= sub0);
                assert(sub1.last() == prev[i as int]);
                assert forall|b: Seq<u8>|
                    #[trigger] holds_bytes(kept@, b) <==> (holds_bytes(sub1, b) && b
                        != addr.spec_bytes()) by {
                    if holds_bytes(kept@, b) {
                        let x = choose|x: int|
                            0 <= x < kept@.len() && (#[trigger] kept@[x]).spec_bytes() == b;
                        if x < kept_prev.len() {
                            assert(holds_bytes(kept_prev, b));
                            let y = choose|y: int|
                                0 <= y < sub0.len() && (#[trigger] sub0[y]).spec_bytes() == b;
                            assert(sub1[y].spec_bytes() == b);
                        } else {
                            assert(kept@[x].spec_bytes() == prev[i as int].spec_bytes());
                            assert(sub1[i as int].spec_bytes() == b);
                        }
                    }
                    if holds_bytes(sub1, b) && b != addr.spec_bytes() {
                        let y = choose|y: int|
                            0 <= y < sub1.len() && (#[trigger] sub1[y]).spec_bytes() == b;
                        if y < i {
                            assert(sub0[y].spec_bytes() == b);
                            assert(holds_bytes(kept_prev, b));
                            let x = choose|x: int|
                                0 <= x < kept_prev.len() && (#[trigger] kept_prev[x]).spec_bytes()
                                    == b;
                            assert(kept@[x].spec_bytes() == b);
                        } else {
                            assert(prev[i as int].spec_bytes() == b);
                            assert(kept@[kept@.len() - 1].spec_bytes() == b);
                        }
                    }
                }
            }
            i += 1;
        }
        proof {
            assert(prev.subrange(0, prev.len() as int) =~= prev);
        }
        self.confirmed = kept;
        proof {
            assert forall|b: Seq<u8>| #[trigger] self.is_confirmed_spec(b) implies self
                .seen_candidate(b) by {
                assert(old(self).is_confirmed_spec(b));
                assert(old(self).seen_candidate(b));
            }
        }
    }

    /// Whether the address is currently confirmed.
    pub fn is_confirmed(&self, addr: &Multiaddr) -> (r: bool)
        ensures
            r <==> self.is_confirmed_spec(addr.spec_bytes()),
    {
        find_addr(&self.confirmed, addr)
    }

    /// How many addresses are confirmed.
    pub fn confirmed_len(&self) -> (r: usize)
        ensures
            r == self.confirmed_count(),
    {
        self.confirmed.len()
    }

    /// The confirmed address at a position.
    pub fn confirmed_at(&self, i: usize) -> (r: &Multiaddr)
        requires
            i < self.confirmed_count(),
        ensures
            self.is_confirmed_spec(r.spec_bytes()),
    {
        &self.confirmed[i]
    }
}

/// How the sets move when an address `b` is reported as a candidate:
/// the candidates gain `b`, the confirmed set is untouched.
pub open spec fn candidate_step(pre: ExternalAddresses, post: ExternalAddresses, b: Seq<u8>) -> bool {
    &&& forall|x: Seq<u8>| #[trigger] post.seen_candidate(x) <==> pre.seen_candidate(x) || x == b
    &&& forall|x: Seq<u8>|
        #[trigger] post.is_confirmed_spec(x) <==> pre.is_confirmed_spec(x)
}

/// How the sets move when an address `b` is confirmed: both sets gain
/// `b`, candidacy never lagging confirmation.
pub open spec fn confirm_step(pre: ExternalAddresses, post: ExternalAddresses, b: Seq<u8>) -> bool {
    &&& forall|x: Seq<u8>| #[trigger] post.seen_candidate(x) <==> pre.seen_candidate(x) || x == b
    &&& forall|x: Seq<u8>|
        #[trigger] post.is_confirmed_spec(x) <==> pre.is_confirmed_spec(x) || x == b
}

/// How the sets move when an address `b` expires: it leaves the
/// confirmed set only.
pub open spec fn expire_step(pre: ExternalAddresses, post: ExternalAddresses, b: Seq<u8>) -> bool {
    &&& forall|x: Seq<u8>| #[trigger] post.seen_candidate(x) <==> pre.seen_candidate(x)
    &&& forall|x: Seq<u8>|
        #[trigger] post.is_confirmed_spec(x) <==> pre.is_confirmed_spec(x) && x != b
}

/// Every confirmed external address was first broadcast as a candidate.
pub proof fn lemma_confirmed_requires_candidacy(x: ExternalAddresses, b: Seq<u8>)
    requires
        x.wf(),
        x.is_confirmed_spec(b),
    ensures
        x.seen_candidate(b),
{
}

} // verus!
