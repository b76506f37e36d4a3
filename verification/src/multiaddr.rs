//! Layered, self-describing network addresses.
//!
//! A multiaddr is an ordered sequence of protocol components, written
//! `/proto/value/proto/value/...` in its textual (byte) form. The component
//! order is semantically significant: the sequence encodes the full
//! transport stack (IP before UDP before QUIC, and so on). Parsing is
//! tolerant of an unknown suffix: at the first unknown protocol name the
//! rest of the input is kept verbatim as an opaque trailer, to be passed
//! through to custom transports.

use vstd::prelude::*;

verus! {

/// The byte separating components in the textual form.
pub const SLASH: u8 = 47;

/// The byte separating the four octets of an IPv4 address.
pub const DOT: u8 = 46;

/// The byte of the letter `a`, and likewise below for the other bytes
/// protocol names are written with.
pub const B_A: u8 = 97;

/// The byte of the letter `b`.
pub const B_B: u8 = 98;

/// The byte of the letter `c`.
pub const B_C: u8 = 99;

/// The byte of the letter `d`.
pub const B_D: u8 = 100;

/// The byte of the letter `e`.
pub const B_E: u8 = 101;

/// The byte of the letter `i`.
pub const B_I: u8 = 105;

/// The byte of the letter `n`.
pub const B_N: u8 = 110;

/// The byte of the letter `o`.
pub const B_O: u8 = 111;

/// The byte of the letter `p`.
pub const B_P: u8 = 112;

/// The byte of the letter `q`.
pub const B_Q: u8 = 113;

/// The byte of the letter `r`.
pub const B_R: u8 = 114;

/// The byte of the letter `s`.
pub const B_S: u8 = 115;

/// The byte of the letter `t`.
pub const B_T: u8 = 116;

/// The byte of the letter `u`.
pub const B_U: u8 = 117;

/// The byte of the letter `v`.
pub const B_V: u8 = 118;

/// The byte of the letter `w`.
pub const B_W: u8 = 119;

/// The byte of the digit `1`.
pub const B_1: u8 = 49;

/// The byte of the digit `2`.
pub const B_2: u8 = 50;

/// The byte of the digit `4`.
pub const B_4: u8 = 52;

/// The byte of the digit `6`.
pub const B_6: u8 = 54;

/// The byte of a hyphen.
pub const HYPHEN: u8 = 45;

/// One protocol component of a multiaddr.
///
/// Text-valued components (`Ip6`, `P2p`, `Dns`…) store their value as the
/// bytes of the textual form; numeric components store the number itself.
#[derive(Clone, Debug)]
pub enum Component {
    /// An IPv4 address, as its four octets.
    Ip4(u8, u8, u8, u8),
    /// An IPv6 address, as the bytes of its textual form.
    Ip6(Vec<u8>),
    /// A TCP port.
    Tcp(u16),
    /// A UDP port.
    Udp(u16),
    /// The draft version of the QUIC protocol.
    Quic,
    /// Version 1 of the QUIC protocol.
    QuicV1,
    /// A WebSocket endpoint.
    Ws,
    /// A WebSocket endpoint behind TLS.
    Wss,
    /// A direct WebRTC connection.
    WebrtcDirect,
    /// A WebTransport session.
    Webtransport,
    /// The identity of a peer, as the bytes of its canonical text form.
    P2p(Vec<u8>),
    /// A name to resolve to any address record.
    Dns(Vec<u8>),
    /// A name to resolve to an IPv4 record.
    Dns4(Vec<u8>),
    /// A name to resolve to an IPv6 record.
    Dns6(Vec<u8>),
}

/// The mathematical model of a [`Component`]: the same alternatives with
/// text values as byte sequences.
pub enum SpecComponent {
    /// An IPv4 address, as its four octets.
    Ip4(u8, u8, u8, u8),
    /// An IPv6 address, as the bytes of its textual form.
    Ip6(Seq<u8>),
    /// A TCP port.
    Tcp(u16),
    /// A UDP port.
    Udp(u16),
    /// The draft version of the QUIC protocol.
    Quic,
    /// Version 1 of the QUIC protocol.
    QuicV1,
    /// A WebSocket endpoint.
    Ws,
    /// A WebSocket endpoint behind TLS.
    Wss,
    /// A direct WebRTC connection.
    WebrtcDirect,
    /// A WebTransport session.
    Webtransport,
    /// The identity of a peer, as the bytes of its canonical text form.
    P2p(Seq<u8>),
    /// A name to resolve to any address record.
    Dns(Seq<u8>),
    /// A name to resolve to an IPv4 record.
    Dns4(Seq<u8>),
    /// A name to resolve to an IPv6 record.
    Dns6(Seq<u8>),
}

impl View for Component {
    type V = SpecComponent;

    open spec fn view(&self) -> SpecComponent {
        match self {
            Component::Ip4(a, b, c, d) => SpecComponent::Ip4(*a, *b, *c, *d),
            Component::Ip6(t) => SpecComponent::Ip6(t@),
            Component::Tcp(p) => SpecComponent::Tcp(*p),
            Component::Udp(p) => SpecComponent::Udp(*p),
            Component::Quic => SpecComponent::Quic,
            Component::QuicV1 => SpecComponent::QuicV1,
            Component::Ws => SpecComponent::Ws,
            Component::Wss => SpecComponent::Wss,
            Component::WebrtcDirect => SpecComponent::WebrtcDirect,
            Component::Webtransport => SpecComponent::Webtransport,
            Component::P2p(t) => SpecComponent::P2p(t@),
            Component::Dns(t) => SpecComponent::Dns(t@),
            Component::Dns4(t) => SpecComponent::Dns4(t@),
            Component::Dns6(t) => SpecComponent::Dns6(t@),
        }
    }
}

/// True of a byte a decimal digit is written with.
pub open spec fn is_digit(b: u8) -> bool {
    48 <= b <= 57
}

/// The decimal digits of `n`, most significant first.
pub open spec fn spec_dec(n: nat) -> Seq<u8>
    decreases n,
{
    if n < 10 {
        seq![(48 + n) as u8]
    } else {
        spec_dec(n / 10).push((48 + n % 10) as u8)
    }
}

/// The number a sequence of decimal digits denotes.
pub open spec fn val_of(t: Seq<u8>) -> nat
    decreases t.len(),
{
    if t.len() == 0 {
        0
    } else {
        (val_of(t.drop_last()) * 10 + if t.last() >= 48 {
            t.last() - 48
        } else {
            0
        }) as nat
    }
}

/// True of the canonical decimal form of a number: at least one digit,
/// digits only, and no leading zero.
pub open spec fn canonical_dec(t: Seq<u8>) -> bool {
    &&& t.len() > 0
    &&& forall|i: int| 0 <= i < t.len() ==> is_digit(#[trigger] t[i])
    &&& (t[0] == 48 ==> t.len() == 1)
}

/// True of a byte admitted in a text-valued component: printable ASCII
/// other than the component separator.
pub open spec fn is_text_byte(b: u8) -> bool {
    33 <= b <= 126 && b != SLASH
}

/// True of the value of a text-valued component.
pub open spec fn wf_text(t: Seq<u8>) -> bool {
    &&& t.len() > 0
    &&& forall|i: int| 0 <= i < t.len() ==> is_text_byte(#[trigger] t[i])
}

/// True of a byte admitted in the textual form of an IPv6 address.
pub open spec fn is_ip6_byte(b: u8) -> bool {
    is_digit(b) || 97 <= b <= 102 || b == 58 || b == DOT
}

/// True of the value of an `Ip6` component.
pub open spec fn wf_ip6_text(t: Seq<u8>) -> bool {
    &&& t.len() > 0
    &&& forall|i: int| 0 <= i < t.len() ==> is_ip6_byte(#[trigger] t[i])
}

/// True of a byte admitted in the textual form of a peer identity:
/// a letter or a digit.
pub open spec fn is_p2p_byte(b: u8) -> bool {
    is_digit(b) || 65 <= b <= 90 || 97 <= b <= 122
}

/// True of the value of a `P2p` component.
pub open spec fn wf_p2p_text(t: Seq<u8>) -> bool {
    &&& t.len() > 0
    &&& forall|i: int| 0 <= i < t.len() ==> is_p2p_byte(#[trigger] t[i])
}

impl SpecComponent {
    /// The protocol name of this component, as bytes.
    pub open spec fn name_bytes(self) -> Seq<u8> {
        match self {
            SpecComponent::Ip4(..) => seq![B_I, B_P, B_4],
            SpecComponent::Ip6(..) => seq![B_I, B_P, B_6],
            SpecComponent::Tcp(..) => seq![B_T, B_C, B_P],
            SpecComponent::Udp(..) => seq![B_U, B_D, B_P],
            SpecComponent::Quic => seq![B_Q, B_U, B_I, B_C],
            SpecComponent::QuicV1 => seq![B_Q, B_U, B_I, B_C, HYPHEN, B_V, B_1],
            SpecComponent::Ws => seq![B_W, B_S],
            SpecComponent::Wss => seq![B_W, B_S, B_S],
            SpecComponent::WebrtcDirect => seq![
                B_W, B_E, B_B, B_R, B_T, B_C, HYPHEN, B_D, B_I, B_R, B_E, B_C, B_T,
            ],
            SpecComponent::Webtransport => seq![
                B_W, B_E, B_B, B_T, B_R, B_A, B_N, B_S, B_P, B_O, B_R, B_T,
            ],
            SpecComponent::P2p(..) => seq![B_P, B_2, B_P],
            SpecComponent::Dns(..) => seq![B_D, B_N, B_S],
            SpecComponent::Dns4(..) => seq![B_D, B_N, B_S, B_4],
            SpecComponent::Dns6(..) => seq![B_D, B_N, B_S, B_6],
        }
    }

    /// Whether this component carries a value segment.
    pub open spec fn has_arg(self) -> bool {
        match self {
            SpecComponent::Ip4(..) | SpecComponent::Ip6(..) | SpecComponent::Tcp(..)
            | SpecComponent::Udp(..) | SpecComponent::P2p(..) | SpecComponent::Dns(..)
            | SpecComponent::Dns4(..) | SpecComponent::Dns6(..) => true,
            _ => false,
        }
    }

    /// The bytes of the value segment of this component.
    pub open spec fn arg_bytes(self) -> Seq<u8> {
        match self {
            SpecComponent::Ip4(a, b, c, d) => spec_dec(a as nat) + seq![DOT] + spec_dec(b as nat)
                + seq![DOT] + spec_dec(c as nat) + seq![DOT] + spec_dec(d as nat),
            SpecComponent::Ip6(t) => t,
            SpecComponent::Tcp(p) => spec_dec(p as nat),
            SpecComponent::Udp(p) => spec_dec(p as nat),
            SpecComponent::P2p(t) => t,
            SpecComponent::Dns(t) => t,
            SpecComponent::Dns4(t) => t,
            SpecComponent::Dns6(t) => t,
            _ => seq![],
        }
    }

    /// The full textual form of this component.
    pub open spec fn spec_bytes(self) -> Seq<u8> {
        if self.has_arg() {
            seq![SLASH] + self.name_bytes() + seq![SLASH] + self.arg_bytes()
        } else {
            seq![SLASH] + self.name_bytes()
        }
    }

    /// Validity of the value a component carries.
    pub open spec fn wf(self) -> bool {
        match self {
            SpecComponent::Ip6(t) => wf_ip6_text(t),
            SpecComponent::P2p(t) => wf_p2p_text(t),
            SpecComponent::Dns(t) => wf_text(t),
            SpecComponent::Dns4(t) => wf_text(t),
            SpecComponent::Dns6(t) => wf_text(t),
            _ => true,
        }
    }
}

/// The textual form of a sequence of components.
pub open spec fn comps_bytes(cs: Seq<SpecComponent>) -> Seq<u8>
    decreases cs.len(),
{
    if cs.len() == 0 {
        seq![]
    } else {
        cs[0].spec_bytes() + comps_bytes(cs.drop_first())
    }
}

/// A layered network address: a sequence of protocol components, with an
/// optional opaque trailer of unrecognized suffix components.
#[derive(Clone, Debug)]
pub struct Multiaddr {
    components: Vec<Component>,
    trailer: Vec<u8>,
}

/// The mathematical model of a [`Multiaddr`].
pub struct SpecMultiaddr {
    /// The components, in order.
    pub components: Seq<SpecComponent>,
    /// The opaque trailer.
    pub trailer: Seq<u8>,
}

impl View for Multiaddr {
    type V = SpecMultiaddr;

    closed spec fn view(&self) -> SpecMultiaddr {
        SpecMultiaddr {
            components: self.components@.map_values(|c: Component| c@),
            trailer: self.trailer@,
        }
    }
}

impl Multiaddr {
    /// The components of this address, in order.
    pub open spec fn spec_components(self) -> Seq<SpecComponent> {
        self@.components
    }

    /// The opaque trailer kept from parsing, empty unless the input ended
    /// in unrecognized components.
    pub open spec fn spec_trailer(self) -> Seq<u8> {
        self@.trailer
    }

    /// Validity: every component value is well formed, and the trailer, if
    /// any, begins with the component separator.
    pub open spec fn wf(self) -> bool {
        &&& forall|i: int|
            0 <= i < self.spec_components().len() ==> (#[trigger] self.spec_components()[i]).wf()
        &&& self.spec_trailer().len() > 0 ==> self.spec_trailer()[0] == SLASH
    }

    /// The full textual form of this address.
    pub open spec fn spec_bytes(self) -> Seq<u8> {
        comps_bytes(self.spec_components()) + self.spec_trailer()
    }

    /// The empty address.
    pub fn empty() -> (r: Multiaddr)
        ensures
            r.spec_components() == Seq::<SpecComponent>::empty(),
            r.spec_trailer() == Seq::<u8>::empty(),
            r.wf(),
    {
        let r = Multiaddr { components: Vec::new(), trailer: Vec::new() };
        proof {
            assert(r.spec_components() =~= Seq::<SpecComponent>::empty());
        }
        r
    }

    /// The number of components.
    pub fn len(&self) -> (r: usize)
        ensures
            r == self.spec_components().len(),
    {
        self.components.len()
    }

    /// The component at a given position.
    pub fn component(&self, i: usize) -> (r: &Component)
        requires
            i < self.spec_components().len(),
        ensures
            r@ == self.spec_components()[i as int],
    {
        &self.components[i]
    }

    /// Appends a component. A raw trailer, when present, stays last in the
    /// textual form.
    pub fn with(self, c: Component) -> (r: Multiaddr)
        requires
            c@.wf(),
        ensures
            r.spec_components() == self.spec_components().push(c@),
            r.spec_trailer() == self.spec_trailer(),
            self.wf() ==> r.wf(),
    {
        let ghost orig = self;
        let Multiaddr { mut components, trailer } = self;
        components.push(c);
        let r = Multiaddr { components, trailer };
        proof {
            assert(r.spec_components() =~= orig.spec_components().push(c@));
            if orig.wf() {
                assert forall|i: int| 0 <= i < r.spec_components().len() implies (
                #[trigger] r.spec_components()[i]).wf() by {
                    if i < r.spec_components().len() - 1 {
                        assert(r.spec_components()[i] == orig.spec_components()[i]);
                    } else {
                        assert(r.spec_components()[i] == c@);
                    }
                }
            }
        }
        r
    }
}

/// Appends the canonical decimal form of `n`.
fn push_dec(out: &mut Vec<u8>, n: u64)
    ensures
        final(out)@ == old(out)@ + spec_dec(n as nat),
    decreases n,
{
    let ghost pre = out@;
    if n >= 10 {
        push_dec(out, n / 10);
    }
    out.push(48 + (n % 10) as u8);
    proof {
        if n >= 10 {
            assert(out@ =~= pre + spec_dec((n / 10) as nat).push((48 + n as nat % 10) as u8));
        } else {
            assert(out@ =~= pre + seq![(48 + n as nat) as u8]);
        }
    }
}

/// Appends all bytes of `t`.
fn push_all(out: &mut Vec<u8>, t: &Vec<u8>)
    ensures
        final(out)@ == old(out)@ + t@,
{
    let ghost pre = out@;
    let mut i: usize = 0;
    while i < t.len()
        invariant
            0 <= i <= t@.len(),
            out@ == pre + t@.subrange(0, i as int),
        decreases t@.len() - i,
    {
        out.push(t[i]);
        proof {
            assert(pre + t@.subrange(0, i as int + 1) =~= (pre + t@.subrange(
                0,
                i as int,
            )).push(t@[i as int]));
        }
        i += 1;
    }
    proof {
        assert(t@.subrange(0, t@.len() as int) =~= t@);
    }
}

/// Appends the protocol name of `c`.
fn push_name(out: &mut Vec<u8>, c: &Component)
    ensures
        final(out)@ == old(out)@ + c@.name_bytes(),
{
    let ghost pre = out@;
    match c {
        Component::Ip4(..) => {
            out.push(B_I);
            out.push(B_P);
            out.push(B_4);
        },
        Component::Ip6(..) => {
            out.push(B_I);
            out.push(B_P);
            out.push(B_6);
        },
        Component::Tcp(..) => {
            out.push(B_T);
            out.push(B_C);
            out.push(B_P);
        },
        Component::Udp(..) => {
            out.push(B_U);
            out.push(B_D);
            out.push(B_P);
        },
        Component::Quic => {
            out.push(B_Q);
            out.push(B_U);
            out.push(B_I);
            out.push(B_C);
        },
        Component::QuicV1 => {
            out.push(B_Q);
            out.push(B_U);
            out.push(B_I);
            out.push(B_C);
            out.push(HYPHEN);
            out.push(B_V);
            out.push(B_1);
        },
        Component::Ws => {
            out.push(B_W);
            out.push(B_S);
        },
        Component::Wss => {
            out.push(B_W);
            out.push(B_S);
            out.push(B_S);
        },
        Component::WebrtcDirect => {
            out.push(B_W);
            out.push(B_E);
            out.push(B_B);
            out.push(B_R);
            out.push(B_T);
            out.push(B_C);
            out.push(HYPHEN);
            out.push(B_D);
            out.push(B_I);
            out.push(B_R);
            out.push(B_E);
            out.push(B_C);
            out.push(B_T);
        },
        Component::Webtransport => {
            out.push(B_W);
            out.push(B_E);
            out.push(B_B);
            out.push(B_T);
            out.push(B_R);
            out.push(B_A);
            out.push(B_N);
            out.push(B_S);
            out.push(B_P);
            out.push(B_O);
            out.push(B_R);
            out.push(B_T);
        },
        Component::P2p(..) => {
            out.push(B_P);
            out.push(B_2);
            out.push(B_P);
        },
        Component::Dns(..) => {
            out.push(B_D);
            out.push(B_N);
            out.push(B_S);
        },
        Component::Dns4(..) => {
            out.push(B_D);
            out.push(B_N);
            out.push(B_S);
            out.push(B_4);
        },
        Component::Dns6(..) => {
            out.push(B_D);
            out.push(B_N);
            out.push(B_S);
            out.push(B_6);
        },
    }
    proof {
        assert(out@ =~= pre + c@.name_bytes());
    }
}

/// Appends the full textual form of `c`.
fn push_component(out: &mut Vec<u8>, c: &Component)
    ensures
        final(out)@ == old(out)@ + c@.spec_bytes(),
{
    let ghost pre = out@;
    out.push(SLASH);
    push_name(out, c);
    match c {
        Component::Ip4(a, b, c2, d) => {
            out.push(SLASH);
            push_dec(out, *a as u64);
            out.push(DOT);
            push_dec(out, *b as u64);
            out.push(DOT);
            push_dec(out, *c2 as u64);
            out.push(DOT);
            push_dec(out, *d as u64);
        },
        Component::Tcp(p) => {
            out.push(SLASH);
            push_dec(out, *p as u64);
        },
        Component::Udp(p) => {
            out.push(SLASH);
            push_dec(out, *p as u64);
        },
        Component::Ip6(t) => {
            out.push(SLASH);
            push_all(out, t);
        },
        Component::P2p(t) => {
            out.push(SLASH);
            push_all(out, t);
        },
        Component::Dns(t) => {
            out.push(SLASH);
            push_all(out, t);
        },
        Component::Dns4(t) => {
            out.push(SLASH);
            push_all(out, t);
        },
        Component::Dns6(t) => {
            out.push(SLASH);
            push_all(out, t);
        },
        _ => {},
    }
    proof {
        assert(out@ =~= pre + c@.spec_bytes());
    }
}

/// The textual form of a component sequence extended by one component.
pub proof fn lemma_comps_bytes_push(cs: Seq<SpecComponent>, c: SpecComponent)
    ensures
        comps_bytes(cs.push(c)) == comps_bytes(cs) + c.spec_bytes(),
    decreases cs.len(),
{
    if cs.len() == 0 {
        reveal_with_fuel(comps_bytes, 3);
        assert(cs.push(c)[0] == c);
        assert(cs.push(c).drop_first() =~= Seq::<SpecComponent>::empty());
        assert(cs =~= Seq::<SpecComponent>::empty());
        assert(comps_bytes(cs.push(c)) =~= comps_bytes(cs) + c.spec_bytes());
    } else {
        assert(cs.push(c).drop_first() =~= cs.drop_first().push(c));
        lemma_comps_bytes_push(cs.drop_first(), c);
        assert(cs.push(c)[0] == cs[0]);
        assert(comps_bytes(cs.push(c)) == cs[0].spec_bytes() + comps_bytes(
            cs.drop_first().push(c),
        ));
        assert(cs[0].spec_bytes() + (comps_bytes(cs.drop_first()) + c.spec_bytes())
            =~= (cs[0].spec_bytes() + comps_bytes(cs.drop_first())) + c.spec_bytes());
        assert(comps_bytes(cs.push(c)) =~= comps_bytes(cs) + c.spec_bytes());
    }
}

impl Multiaddr {
    /// Serialises this address to its textual (byte) form.
    pub fn to_bytes(&self) -> (r: Vec<u8>)
        ensures
            r@ == self.spec_bytes(),
    {
        let mut out: Vec<u8> = Vec::new();
        let mut i: usize = 0;
        while i < self.components.len()
            invariant
                0 <= i <= self.spec_components().len(),
                self.spec_components().len() == self.components@.len(),
                out@ == comps_bytes(self.spec_components().subrange(0, i as int)),
            decreases self.spec_components().len() - i,
        {
            proof {
                assert(self.spec_components()[i as int] == self.components@[i as int]@);
                assert(self.spec_components().subrange(0, i as int + 1) =~= self.spec_components()
                    .subrange(0, i as int).push(self.spec_components()[i as int]));
                lemma_comps_bytes_push(
                    self.spec_components().subrange(0, i as int),
                    self.spec_components()[i as int],
                );
            }
            push_component(&mut out, &self.components[i]);
            i += 1;
        }
        proof {
            assert(self.spec_components().subrange(0, self.spec_components().len() as int)
                =~= self.spec_components());
        }
        push_all(&mut out, &self.trailer);
        out
    }
}

/// The length of the run of bytes at `i` before the next `stop` byte.
pub open spec fn run_len(s: Seq<u8>, i: int, stop: u8) -> nat
    decreases s.len() - i,
{
    if i < 0 || i >= s.len() || s[i] == stop {
        0
    } else {
        1 + run_len(s, i + 1, stop)
    }
}

/// What [`run_len`] returns: the distance to the next `stop` byte, or to
/// the end of the sequence if none follows.
pub proof fn lemma_run_len(s: Seq<u8>, i: int, stop: u8)
    requires
        0 <= i <= s.len(),
    ensures
        i + run_len(s, i, stop) <= s.len(),
        forall|x: int| i <= x < i + run_len(s, i, stop) ==> s[x] != stop,
        i + run_len(s, i, stop) < s.len() ==> s[i + run_len(s, i, stop)] == stop,
    decreases s.len() - i,
{
    if i < s.len() && s[i] != stop {
        lemma_run_len(s, i + 1, stop);
    }
}

/// [`run_len`] is determined by those properties: a run of non-`stop`
/// bytes from `i` to `e`, ended by `stop` or the end of the sequence, has
/// length `e - i`.
pub proof fn lemma_run_len_char(s: Seq<u8>, i: int, e: int, stop: u8)
    requires
        0 <= i <= e <= s.len(),
        forall|x: int| i <= x < e ==> s[x] != stop,
        e < s.len() ==> s[e] == stop,
    ensures
        run_len(s, i, stop) == e - i,
    decreases e - i,
{
    if i < e {
        lemma_run_len_char(s, i + 1, e, stop);
    }
}

/// The value of a canonical, nonempty digit string with no leading zero
/// is at least one.
proof fn lemma_val_of_positive(t: Seq<u8>)
    requires
        t.len() > 0,
        forall|i: int| 0 <= i < t.len() ==> is_digit(#[trigger] t[i]),
        t[0] != 48,
    ensures
        val_of(t) >= 1,
    decreases t.len(),
{
    if t.len() > 1 {
        assert(t.drop_last()[0] == t[0]);
        lemma_val_of_positive(t.drop_last());
    }
}

/// A canonical digit string is the decimal form of its value.
pub proof fn lemma_canonical_spec_dec(t: Seq<u8>)
    requires
        canonical_dec(t),
    ensures
        spec_dec(val_of(t)) == t,
    decreases t.len(),
{
    if t.len() == 1 {
        reveal_with_fuel(val_of, 2);
        assert(t.drop_last() =~= Seq::<u8>::empty());
        assert(t.last() == t[0]);
        assert(val_of(t) == t[0] - 48);
        assert(spec_dec(val_of(t)) =~= t);
    } else {
        let p = t.drop_last();
        let d = (t.last() - 48) as nat;
        assert(p[0] == t[0]);
        assert(forall|i: int| 0 <= i < p.len() ==> is_digit(#[trigger] p[i]));
        assert(canonical_dec(p));
        lemma_canonical_spec_dec(p);
        lemma_val_of_positive(p);
        let v = val_of(t);
        assert(v == val_of(p) * 10 + d);
        assert(v >= 10) by (nonlinear_arith)
            requires
                v == val_of(p) * 10 + d,
                val_of(p) >= 1,
        ;
        assert(v / 10 == val_of(p) && v % 10 == d) by (nonlinear_arith)
            requires
                v == val_of(p) * 10 + d,
                0 <= d < 10,
        ;
        assert(spec_dec(v) == spec_dec(val_of(p)).push((48 + d) as u8));
        assert(spec_dec(v) =~= t);
    }
}

/// The value of a digit string is at least the value of any prefix.
proof fn lemma_val_of_prefix(t: Seq<u8>, x: int)
    requires
        0 <= x <= t.len(),
    ensures
        val_of(t.subrange(0, x)) <= val_of(t),
    decreases t.len() - x,
{
    if x < t.len() {
        lemma_val_of_prefix(t, x + 1);
        let a = t.subrange(0, x);
        let b = t.subrange(0, x + 1);
        assert(b.drop_last() =~= a);
        assert(val_of(b) >= val_of(a)) by (nonlinear_arith)
            requires
                val_of(b) == val_of(a) * 10 + if b.last() >= 48 {
                    (b.last() - 48) as nat
                } else {
                    0
                },
        ;
    } else {
        assert(t.subrange(0, x) =~= t);
    }
}

/// The number a canonical decimal segment denotes, if it is one and fits
/// a port number.
pub open spec fn spec_parse_port(t: Seq<u8>) -> Option<u16> {
    if canonical_dec(t) && val_of(t) <= 65535 {
        Some(val_of(t) as u16)
    } else {
        None
    }
}

/// The number a canonical decimal segment denotes, if it is one and fits
/// an address octet.
pub open spec fn spec_parse_octet(t: Seq<u8>) -> Option<u8> {
    if canonical_dec(t) && val_of(t) <= 255 {
        Some(val_of(t) as u8)
    } else {
        None
    }
}

/// The IPv4 component a value segment denotes: four canonical octets
/// separated by dots.
pub open spec fn spec_parse_ip4(t: Seq<u8>) -> Option<SpecComponent> {
    let e1 = run_len(t, 0, DOT) as int;
    let s2 = e1 + 1;
    let e2 = s2 + run_len(t, s2, DOT) as int;
    let s3 = e2 + 1;
    let e3 = s3 + run_len(t, s3, DOT) as int;
    let s4 = e3 + 1;
    let e4 = s4 + run_len(t, s4, DOT) as int;
    if e1 >= t.len() || e2 >= t.len() || e3 >= t.len() || e4 != t.len() {
        None
    } else {
        match (
            spec_parse_octet(t.subrange(0, e1)),
            spec_parse_octet(t.subrange(s2, e2)),
            spec_parse_octet(t.subrange(s3, e3)),
            spec_parse_octet(t.subrange(s4, e4)),
        ) {
            (Some(a), Some(b), Some(c), Some(d)) => Some(SpecComponent::Ip4(a, b, c, d)),
            _ => None,
        }
    }
}

/// The component a protocol name without a value denotes, if the name is
/// a recognized one.
pub open spec fn noarg_spec_component(name: Seq<u8>) -> Option<SpecComponent> {
    if name == SpecComponent::Quic.name_bytes() {
        Some(SpecComponent::Quic)
    } else if name == SpecComponent::QuicV1.name_bytes() {
        Some(SpecComponent::QuicV1)
    } else if name == SpecComponent::Ws.name_bytes() {
        Some(SpecComponent::Ws)
    } else if name == SpecComponent::Wss.name_bytes() {
        Some(SpecComponent::Wss)
    } else if name == SpecComponent::WebrtcDirect.name_bytes() {
        Some(SpecComponent::WebrtcDirect)
    } else if name == SpecComponent::Webtransport.name_bytes() {
        Some(SpecComponent::Webtransport)
    } else {
        None
    }
}

/// Whether a protocol name is a recognized one that carries a value.
pub open spec fn is_arg_name(name: Seq<u8>) -> bool {
    ||| name == seq![B_I, B_P, B_4]
    ||| name == seq![B_I, B_P, B_6]
    ||| name == seq![B_T, B_C, B_P]
    ||| name == seq![B_U, B_D, B_P]
    ||| name == seq![B_P, B_2, B_P]
    ||| name == seq![B_D, B_N, B_S]
    ||| name == seq![B_D, B_N, B_S, B_4]
    ||| name == seq![B_D, B_N, B_S, B_6]
}

/// The component a recognized protocol name and value segment denote, if
/// the value is admissible for that protocol.
pub open spec fn arg_spec_component(name: Seq<u8>, arg: Seq<u8>) -> Option<SpecComponent> {
    if name == seq![B_I, B_P, B_4] {
        spec_parse_ip4(arg)
    } else if name == seq![B_I, B_P, B_6] {
        if wf_ip6_text(arg) {
            Some(SpecComponent::Ip6(arg))
        } else {
            None
        }
    } else if name == seq![B_T, B_C, B_P] {
        match spec_parse_port(arg) {
            Some(p) => Some(SpecComponent::Tcp(p)),
            None => None,
        }
    } else if name == seq![B_U, B_D, B_P] {
        match spec_parse_port(arg) {
            Some(p) => Some(SpecComponent::Udp(p)),
            None => None,
        }
    } else if name == seq![B_P, B_2, B_P] {
        if wf_p2p_text(arg) {
            Some(SpecComponent::P2p(arg))
        } else {
            None
        }
    } else if name == seq![B_D, B_N, B_S] {
        if wf_text(arg) {
            Some(SpecComponent::Dns(arg))
        } else {
            None
        }
    } else if name == seq![B_D, B_N, B_S, B_4] {
        if wf_text(arg) {
            Some(SpecComponent::Dns4(arg))
        } else {
            None
        }
    } else if name == seq![B_D, B_N, B_S, B_6] {
        if wf_text(arg) {
            Some(SpecComponent::Dns6(arg))
        } else {
            None
        }
    } else {
        None
    }
}

/// The grammar of the textual form, read from position `i`: the parsed
/// components and the opaque trailer, or nothing where the text is not an
/// address.
pub open spec fn spec_parse_at(s: Seq<u8>, i: int) -> Option<(Seq<SpecComponent>, Seq<u8>)>
    decreases s.len() - i,
    when 0 <= i <= s.len()
    via spec_parse_at_decreases
{
    if i == s.len() {
        Some((seq![], seq![]))
    } else if s[i] != SLASH {
        None
    } else {
        let j = i + 1 + run_len(s, i + 1, SLASH) as int;
        let name = s.subrange(i + 1, j);
        if j == i + 1 {
            None
        } else if noarg_spec_component(name) is Some {
            match spec_parse_at(s, j) {
                Some((cs, t)) => Some(
                    (seq![noarg_spec_component(name).unwrap()] + cs, t),
                ),
                None => None,
            }
        } else if is_arg_name(name) {
            if j >= s.len() {
                None
            } else {
                let k = j + 1 + run_len(s, j + 1, SLASH) as int;
                let arg = s.subrange(j + 1, k);
                match arg_spec_component(name, arg) {
                    Some(c) => match spec_parse_at(s, k) {
                        Some((cs, t)) => Some((seq![c] + cs, t)),
                        None => None,
                    },
                    None => None,
                }
            }
        } else {
            Some((seq![], s.subrange(i, s.len() as int)))
        }
    }
}

#[via_fn]
proof fn spec_parse_at_decreases(s: Seq<u8>, i: int) {
    if 0 <= i && i < s.len() && s[i] == SLASH {
        lemma_run_len(s, i + 1, SLASH);
        let j = i + 1 + run_len(s, i + 1, SLASH) as int;
        if j < s.len() {
            lemma_run_len(s, j + 1, SLASH);
        }
    }
}

/// The grammar of the textual form: the parsed components and the opaque
/// trailer, or nothing where the text is not an address.
pub open spec fn spec_parse(s: Seq<u8>) -> Option<(Seq<SpecComponent>, Seq<u8>)> {
    spec_parse_at(s, 0)
}

/// A component recognized from a name and a value segment reproduces
/// exactly that name and value.
proof fn lemma_arg_component_bytes(name: Seq<u8>, arg: Seq<u8>)
    requires
        arg_spec_component(name, arg) is Some,
    ensures
        arg_spec_component(name, arg).unwrap().has_arg(),
        arg_spec_component(name, arg).unwrap().name_bytes() == name,
        arg_spec_component(name, arg).unwrap().arg_bytes() == arg,
{
    let c = arg_spec_component(name, arg).unwrap();
    if name == seq![B_I, B_P, B_4] {
        let e1 = run_len(arg, 0, DOT) as int;
        let s2 = e1 + 1;
        let e2 = s2 + run_len(arg, s2, DOT) as int;
        let s3 = e2 + 1;
        let e3 = s3 + run_len(arg, s3, DOT) as int;
        let s4 = e3 + 1;
        let e4 = s4 + run_len(arg, s4, DOT) as int;
        let o1 = arg.subrange(0, e1);
        let o2 = arg.subrange(s2, e2);
        let o3 = arg.subrange(s3, e3);
        let o4 = arg.subrange(s4, e4);
        lemma_run_len(arg, 0, DOT);
        lemma_run_len(arg, s2, DOT);
        lemma_run_len(arg, s3, DOT);
        lemma_run_len(arg, s4, DOT);
        assert(arg[e1] == DOT && arg[e2] == DOT && arg[e3] == DOT);
        lemma_canonical_spec_dec(o1);
        lemma_canonical_spec_dec(o2);
        lemma_canonical_spec_dec(o3);
        lemma_canonical_spec_dec(o4);
        assert(c.arg_bytes() == spec_dec(val_of(o1)) + seq![DOT] + spec_dec(val_of(o2))
            + seq![DOT] + spec_dec(val_of(o3)) + seq![DOT] + spec_dec(val_of(o4)));
        assert(c.arg_bytes() =~= arg);
    } else if name == seq![B_T, B_C, B_P] || name == seq![B_U, B_D, B_P] {
        lemma_canonical_spec_dec(arg);
    } else {
    }
}

/// What a successful parse consumed is exactly the serialisation of what
/// it produced, from position `i` on.
#[verifier::rlimit(60)]
proof fn lemma_parse_at_roundtrip(s: Seq<u8>, i: int)
    requires
        0 <= i <= s.len(),
        spec_parse_at(s, i) is Some,
    ensures
        comps_bytes(spec_parse_at(s, i).unwrap().0) + spec_parse_at(s, i).unwrap().1 == s.subrange(
            i,
            s.len() as int,
        ),
    decreases s.len() - i,
{
    if i == s.len() {
        assert(comps_bytes(seq![]) + Seq::<u8>::empty() =~= s.subrange(i, s.len() as int));
    } else {
        lemma_run_len(s, i + 1, SLASH);
        let j = i + 1 + run_len(s, i + 1, SLASH) as int;
        let name = s.subrange(i + 1, j);
        if noarg_spec_component(name) is Some {
            let c = noarg_spec_component(name).unwrap();
            assert(c.name_bytes() == name);
            lemma_parse_at_roundtrip(s, j);
            let cst = spec_parse_at(s, j).unwrap();
            let cs = cst.0;
            let t = cst.1;
            assert((seq![c] + cs)[0] == c);
            assert((seq![c] + cs).drop_first() =~= cs);
            assert(comps_bytes(seq![c] + cs) == c.spec_bytes() + comps_bytes(cs));
            assert(c.spec_bytes() =~= s.subrange(i, j));
            assert(s.subrange(i, s.len() as int) =~= s.subrange(i, j) + s.subrange(
                j,
                s.len() as int,
            ));
            assert(comps_bytes(seq![c] + cs) + t =~= s.subrange(i, s.len() as int));
        } else if is_arg_name(name) {
            lemma_run_len(s, j + 1, SLASH);
            let k = j + 1 + run_len(s, j + 1, SLASH) as int;
            let arg = s.subrange(j + 1, k);
            let c = arg_spec_component(name, arg).unwrap();
            lemma_arg_component_bytes(name, arg);
            lemma_parse_at_roundtrip(s, k);
            let cst = spec_parse_at(s, k).unwrap();
            let cs = cst.0;
            let t = cst.1;
            assert((seq![c] + cs)[0] == c);
            assert((seq![c] + cs).drop_first() =~= cs);
            assert(comps_bytes(seq![c] + cs) == c.spec_bytes() + comps_bytes(cs));
            assert(s[j] == SLASH);
            assert(c.spec_bytes() =~= s.subrange(i, k));
            assert(s.subrange(i, s.len() as int) =~= s.subrange(i, k) + s.subrange(
                k,
                s.len() as int,
            ));
            assert(comps_bytes(seq![c] + cs) + t =~= s.subrange(i, s.len() as int));
        } else {
            assert(comps_bytes(seq![]) + s.subrange(i, s.len() as int) =~= s.subrange(
                i,
                s.len() as int,
            ));
        }
    }
}

/// Round trip: the textual form of what a successful parse produced is,
/// byte for byte, the input it was parsed from.
pub proof fn lemma_parse_roundtrip(s: Seq<u8>)
    requires
        spec_parse(s) is Some,
    ensures
        comps_bytes(spec_parse(s).unwrap().0) + spec_parse(s).unwrap().1 == s,
{
    lemma_parse_at_roundtrip(s, 0);
    assert(s.subrange(0, s.len() as int) =~= s);
}

/// The first position at or after `from`, up to `end`, holding `stop`;
/// `end` where none does.
fn find_stop_within(s: &[u8], from: usize, end: usize, stop: u8) -> (r: usize)
    requires
        from <= end <= s@.len(),
    ensures
        from <= r <= end,
        forall|x: int| from <= x < r ==> s@[x] != stop,
        r < end ==> s@[r as int] == stop,
{
    let mut j = from;
    while j < end
        invariant
            from <= j <= end <= s@.len(),
            forall|x: int| from <= x < j ==> s@[x] != stop,
        decreases end - j,
    {
        if s[j] == stop {
            return j;
        }
        j += 1;
    }
    j
}

/// Copies the bytes of `s` between `a` and `b`.
fn copy_range(s: &[u8], a: usize, b: usize) -> (r: Vec<u8>)
    requires
        a <= b <= s@.len(),
    ensures
        r@ == s@.subrange(a as int, b as int),
{
    let mut out: Vec<u8> = Vec::new();
    let mut x = a;
    while x < b
        invariant
            a <= x <= b <= s@.len(),
            out@ == s@.subrange(a as int, x as int),
        decreases b - x,
    {
        out.push(s[x]);
        proof {
            assert(s@.subrange(a as int, x as int + 1) =~= s@.subrange(a as int, x as int).push(
                s@[x as int],
            ));
        }
        x += 1;
    }
    out
}

/// Whether the bytes of `s` between `a` and `b` equal `pat`.
pub(crate) fn seg_eq(s: &[u8], a: usize, b: usize, pat: &[u8]) -> (r: bool)
    requires
        a <= b <= s@.len(),
    ensures
        r <==> s@.subrange(a as int, b as int) == pat@,
{
    if b - a != pat.len() {
        return false;
    }
    let mut x: usize = 0;
    while x < pat.len()
        invariant
            a <= b <= s@.len(),
            b - a == pat@.len(),
            0 <= x <= pat@.len(),
            forall|y: int| 0 <= y < x ==> s@[a + y] == pat@[y],
        decreases pat@.len() - x,
    {
        if s[a + x] != pat[x] {
            proof {
                assert(s@.subrange(a as int, b as int)[x as int] == s@[a + x]);
            }
            return false;
        }
        x += 1;
    }
    proof {
        assert(s@.subrange(a as int, b as int) =~= pat@);
    }
    true
}

/// Reads a canonical decimal number of at most `max` from the bytes of
/// `s` between `a` and `b`.
fn parse_dec_seg(s: &[u8], a: usize, b: usize, max: u32) -> (r: Option<u32>)
    requires
        a <= b <= s@.len(),
        max <= 65535,
    ensures
        match r {
            Some(v) => canonical_dec(s@.subrange(a as int, b as int)) && val_of(
                s@.subrange(a as int, b as int),
            ) == v && v <= max,
            None => !(canonical_dec(s@.subrange(a as int, b as int)) && val_of(
                s@.subrange(a as int, b as int),
            ) <= max),
        },
{
    let ghost t = s@.subrange(a as int, b as int);
    if a == b {
        return None;
    }
    if s[a] == 48 && b - a > 1 {
        proof {
            assert(t[0] == s@[a as int]);
        }
        return None;
    }
    let mut v: u32 = 0;
    let mut x = a;
    while x < b
        invariant
            a <= x <= b <= s@.len(),
            max <= 65535,
            t == s@.subrange(a as int, b as int),
            v == val_of(s@.subrange(a as int, x as int)),
            v <= max,
            forall|y: int| a <= y < x ==> is_digit(#[trigger] s@[y]),
        decreases b - x,
    {
        let c = s[x];
        if c < 48 || c > 57 {
            proof {
                assert(t[x - a] == s@[x as int]);
            }
            return None;
        }
        proof {
            assert(s@.subrange(a as int, x as int + 1).drop_last() =~= s@.subrange(
                a as int,
                x as int,
            ));
            assert(s@.subrange(a as int, x as int + 1).last() == s@[x as int]);
        }
        v = v * 10 + (c - 48) as u32;
        if v > max {
            proof {
                assert(t.subrange(0, x + 1 - a) =~= s@.subrange(a as int, x as int + 1));
                lemma_val_of_prefix(t, x + 1 - a);
            }
            return None;
        }
        x += 1;
    }
    proof {
        assert(s@.subrange(a as int, x as int) =~= t);
        assert(forall|y: int| 0 <= y < t.len() ==> is_digit(#[trigger] t[y]) && t[y] == s@[a + y]);
        assert(t[0] == s@[a as int]);
    }
    Some(v)
}

/// Whether every byte of `s` between `a` and `b` may stand in a
/// text-valued component, the range being nonempty.
fn check_text_range(s: &[u8], a: usize, b: usize) -> (r: bool)
    requires
        a <= b <= s@.len(),
    ensures
        r <==> wf_text(s@.subrange(a as int, b as int)),
{
    let ghost t = s@.subrange(a as int, b as int);
    if a == b {
        return false;
    }
    let mut x = a;
    while x < b
        invariant
            a <= x <= b <= s@.len(),
            t == s@.subrange(a as int, b as int),
            forall|y: int| a <= y < x ==> is_text_byte(#[trigger] s@[y]),
        decreases b - x,
    {
        let c = s[x];
        if c < 33 || c > 126 || c == SLASH {
            proof {
                assert(t[x - a] == s@[x as int]);
            }
            return false;
        }
        x += 1;
    }
    proof {
        assert forall|y: int| 0 <= y < t.len() implies is_text_byte(#[trigger] t[y]) by {
            assert(t[y] == s@[a + y]);
        }
    }
    true
}

/// Whether every byte of `s` between `a` and `b` may stand in the textual
/// form of an IPv6 address, the range being nonempty.
fn check_ip6_range(s: &[u8], a: usize, b: usize) -> (r: bool)
    requires
        a <= b <= s@.len(),
    ensures
        r <==> wf_ip6_text(s@.subrange(a as int, b as int)),
{
    let ghost t = s@.subrange(a as int, b as int);
    if a == b {
        return false;
    }
    let mut x = a;
    while x < b
        invariant
            a <= x <= b <= s@.len(),
            t == s@.subrange(a as int, b as int),
            forall|y: int| a <= y < x ==> is_ip6_byte(#[trigger] s@[y]),
        decreases b - x,
    {
        let c = s[x];
        if !(c >= 48 && c <= 57 || c >= 97 && c <= 102 || c == 58 || c == DOT) {
            proof {
                assert(t[x - a] == s@[x as int]);
            }
            return false;
        }
        x += 1;
    }
    proof {
        assert forall|y: int| 0 <= y < t.len() implies is_ip6_byte(#[trigger] t[y]) by {
            assert(t[y] == s@[a + y]);
        }
    }
    true
}

/// Whether every byte of `s` between `a` and `b` may stand in the textual
/// form of a peer identity, the range being nonempty.
fn check_p2p_range(s: &[u8], a: usize, b: usize) -> (r: bool)
    requires
        a <= b <= s@.len(),
    ensures
        r <==> wf_p2p_text(s@.subrange(a as int, b as int)),
{
    let ghost t = s@.subrange(a as int, b as int);
    if a == b {
        return false;
    }
    let mut x = a;
    while x < b
        invariant
            a <= x <= b <= s@.len(),
            t == s@.subrange(a as int, b as int),
            forall|y: int| a <= y < x ==> is_p2p_byte(#[trigger] s@[y]),
        decreases b - x,
    {
        let c = s[x];
        if !(c >= 48 && c <= 57 || c >= 65 && c <= 90 || c >= 97 && c <= 122) {
            proof {
                assert(t[x - a] == s@[x as int]);
            }
            return false;
        }
        x += 1;
    }
    proof {
        assert forall|y: int| 0 <= y < t.len() implies is_p2p_byte(#[trigger] t[y]) by {
            assert(t[y] == s@[a + y]);
        }
    }
    true
}

/// Reads an IPv4 value segment, four canonical octets separated by dots,
/// from the bytes of `s` between `a` and `b`.
fn parse_ip4_arg(s: &[u8], a: usize, b: usize) -> (r: Option<Component>)
    requires
        a <= b <= s@.len(),
    ensures
        match r {
            Some(c) => spec_parse_ip4(s@.subrange(a as int, b as int)) == Some(c@) && c@.wf(),
            None => spec_parse_ip4(s@.subrange(a as int, b as int)) is None,
        },
{
    let ghost t = s@.subrange(a as int, b as int);
    let e1 = find_stop_within(s, a, b, DOT);
    proof {
        lemma_run_len_char(t, 0, e1 - a, DOT);
    }
    if e1 >= b {
        return None;
    }
    let s2 = e1 + 1;
    let e2 = find_stop_within(s, s2, b, DOT);
    proof {
        lemma_run_len_char(t, s2 - a, e2 - a, DOT);
    }
    if e2 >= b {
        return None;
    }
    let s3 = e2 + 1;
    let e3 = find_stop_within(s, s3, b, DOT);
    proof {
        lemma_run_len_char(t, s3 - a, e3 - a, DOT);
    }
    if e3 >= b {
        return None;
    }
    let s4 = e3 + 1;
    let e4 = find_stop_within(s, s4, b, DOT);
    proof {
        lemma_run_len_char(t, s4 - a, e4 - a, DOT);
    }
    if e4 != b {
        return None;
    }
    proof {
        assert(t.subrange(0, e1 - a) =~= s@.subrange(a as int, e1 as int));
        assert(t.subrange(s2 - a, e2 - a) =~= s@.subrange(s2 as int, e2 as int));
        assert(t.subrange(s3 - a, e3 - a) =~= s@.subrange(s3 as int, e3 as int));
        assert(t.subrange(s4 - a, e4 - a) =~= s@.subrange(s4 as int, e4 as int));
    }
    let o1 = match parse_dec_seg(s, a, e1, 255) {
        Some(v) => v,
        None => {
            return None;
        },
    };
    let o2 = match parse_dec_seg(s, s2, e2, 255) {
        Some(v) => v,
        None => {
            return None;
        },
    };
    let o3 = match parse_dec_seg(s, s3, e3, 255) {
        Some(v) => v,
        None => {
            return None;
        },
    };
    let o4 = match parse_dec_seg(s, s4, e4, 255) {
        Some(v) => v,
        None => {
            return None;
        },
    };
    Some(Component::Ip4(o1 as u8, o2 as u8, o3 as u8, o4 as u8))
}

/// Which recognized protocol a name denotes.
enum NameKind {
    KQuic,
    KQuicV1,
    KWs,
    KWss,
    KWebrtcDirect,
    KWebtransport,
    KIp4,
    KIp6,
    KTcp,
    KUdp,
    KP2p,
    KDns,
    KDns4,
    KDns6,
    KUnknown,
}

/// Recognizes the protocol name standing in `s` between `a` and `b`.
#[verifier::rlimit(60)]
fn classify_name(s: &[u8], a: usize, b: usize) -> (t: NameKind)
    requires
        a <= b <= s@.len(),
    ensures
        match t {
            NameKind::KQuic => s@.subrange(a as int, b as int) == seq![B_Q, B_U, B_I, B_C],
            NameKind::KQuicV1 => s@.subrange(a as int, b as int) == seq![B_Q, B_U, B_I, B_C,
                HYPHEN, B_V, B_1],
            NameKind::KWs => s@.subrange(a as int, b as int) == seq![B_W, B_S],
            NameKind::KWss => s@.subrange(a as int, b as int) == seq![B_W, B_S, B_S],
            NameKind::KWebrtcDirect => s@.subrange(a as int, b as int) == seq![B_W, B_E, B_B, B_R,
                B_T, B_C, HYPHEN, B_D, B_I, B_R, B_E, B_C, B_T],
            NameKind::KWebtransport => s@.subrange(a as int, b as int) == seq![B_W, B_E, B_B, B_T,
                B_R, B_A, B_N, B_S, B_P, B_O, B_R, B_T],
            NameKind::KIp4 => s@.subrange(a as int, b as int) == seq![B_I, B_P, B_4],
            NameKind::KIp6 => s@.subrange(a as int, b as int) == seq![B_I, B_P, B_6],
            NameKind::KTcp => s@.subrange(a as int, b as int) == seq![B_T, B_C, B_P],
            NameKind::KUdp => s@.subrange(a as int, b as int) == seq![B_U, B_D, B_P],
            NameKind::KP2p => s@.subrange(a as int, b as int) == seq![B_P, B_2, B_P],
            NameKind::KDns => s@.subrange(a as int, b as int) == seq![B_D, B_N, B_S],
            NameKind::KDns4 => s@.subrange(a as int, b as int) == seq![B_D, B_N, B_S, B_4],
            NameKind::KDns6 => s@.subrange(a as int, b as int) == seq![B_D, B_N, B_S, B_6],
            NameKind::KUnknown => noarg_spec_component(s@.subrange(a as int, b as int)) is None
                && !is_arg_name(s@.subrange(a as int, b as int)),
        },
{
    let p_quic: &[u8] = &[B_Q, B_U, B_I, B_C];
    let p_quic_v1: &[u8] = &[B_Q, B_U, B_I, B_C, HYPHEN, B_V, B_1];
    let p_ws: &[u8] = &[B_W, B_S];
    let p_wss: &[u8] = &[B_W, B_S, B_S];
    let p_webrtc: &[u8] = &[B_W, B_E, B_B, B_R, B_T, B_C, HYPHEN, B_D, B_I, B_R, B_E, B_C, B_T];
    let p_webtrans: &[u8] = &[B_W, B_E, B_B, B_T, B_R, B_A, B_N, B_S, B_P, B_O, B_R, B_T];
    let p_ip4: &[u8] = &[B_I, B_P, B_4];
    let p_ip6: &[u8] = &[B_I, B_P, B_6];
    let p_tcp: &[u8] = &[B_T, B_C, B_P];
    let p_udp: &[u8] = &[B_U, B_D, B_P];
    let p_p2p: &[u8] = &[B_P, B_2, B_P];
    let p_dns: &[u8] = &[B_D, B_N, B_S];
    let p_dns4: &[u8] = &[B_D, B_N, B_S, B_4];
    let p_dns6: &[u8] = &[B_D, B_N, B_S, B_6];
    proof {
        assert(p_quic@ =~= seq![B_Q, B_U, B_I, B_C]);
        assert(p_quic_v1@ =~= seq![B_Q, B_U, B_I, B_C, HYPHEN, B_V, B_1]);
        assert(p_ws@ =~= seq![B_W, B_S]);
        assert(p_wss@ =~= seq![B_W, B_S, B_S]);
        assert(p_webrtc@ =~= seq![B_W, B_E, B_B, B_R, B_T, B_C, HYPHEN, B_D, B_I, B_R, B_E, B_C,
            B_T]);
        assert(p_webtrans@ =~= seq![B_W, B_E, B_B, B_T, B_R, B_A, B_N, B_S, B_P, B_O, B_R, B_T]);
        assert(p_ip4@ =~= seq![B_I, B_P, B_4]);
        assert(p_ip6@ =~= seq![B_I, B_P, B_6]);
        assert(p_tcp@ =~= seq![B_T, B_C, B_P]);
        assert(p_udp@ =~= seq![B_U, B_D, B_P]);
        assert(p_p2p@ =~= seq![B_P, B_2, B_P]);
        assert(p_dns@ =~= seq![B_D, B_N, B_S]);
        assert(p_dns4@ =~= seq![B_D, B_N, B_S, B_4]);
        assert(p_dns6@ =~= seq![B_D, B_N, B_S, B_6]);
    }
    if seg_eq(s, a, b, p_quic) {
        NameKind::KQuic
    } else if seg_eq(s, a, b, p_quic_v1) {
        NameKind::KQuicV1
    } else if seg_eq(s, a, b, p_ws) {
        NameKind::KWs
    } else if seg_eq(s, a, b, p_wss) {
        NameKind::KWss
    } else if seg_eq(s, a, b, p_webrtc) {
        NameKind::KWebrtcDirect
    } else if seg_eq(s, a, b, p_webtrans) {
        NameKind::KWebtransport
    } else if seg_eq(s, a, b, p_ip4) {
        NameKind::KIp4
    } else if seg_eq(s, a, b, p_ip6) {
        NameKind::KIp6
    } else if seg_eq(s, a, b, p_tcp) {
        NameKind::KTcp
    } else if seg_eq(s, a, b, p_udp) {
        NameKind::KUdp
    } else if seg_eq(s, a, b, p_p2p) {
        NameKind::KP2p
    } else if seg_eq(s, a, b, p_dns) {
        NameKind::KDns
    } else if seg_eq(s, a, b, p_dns4) {
        NameKind::KDns4
    } else if seg_eq(s, a, b, p_dns6) {
        NameKind::KDns6
    } else {
        NameKind::KUnknown
    }
}

/// The recognized protocol names are pairwise distinct, and each has its
/// evident length.
proof fn lemma_distinct_names()
    ensures
        seq![B_Q, B_U, B_I, B_C].len() == 4,
        seq![B_Q, B_U, B_I, B_C, HYPHEN, B_V, B_1].len() == 7,
        seq![B_W, B_S].len() == 2,
        seq![B_W, B_S, B_S].len() == 3,
        seq![B_W, B_E, B_B, B_R, B_T, B_C, HYPHEN, B_D, B_I, B_R, B_E, B_C, B_T].len() == 13,
        seq![B_W, B_E, B_B, B_T, B_R, B_A, B_N, B_S, B_P, B_O, B_R, B_T].len() == 12,
        seq![B_I, B_P, B_4].len() == 3,
        seq![B_I, B_P, B_6].len() == 3,
        seq![B_T, B_C, B_P].len() == 3,
        seq![B_U, B_D, B_P].len() == 3,
        seq![B_P, B_2, B_P].len() == 3,
        seq![B_D, B_N, B_S].len() == 3,
        seq![B_D, B_N, B_S, B_4].len() == 4,
        seq![B_D, B_N, B_S, B_6].len() == 4,
        seq![B_Q, B_U, B_I, B_C][0] == B_Q,
        seq![B_D, B_N, B_S, B_4][0] == B_D,
        seq![B_D, B_N, B_S, B_6][0] == B_D,
        seq![B_I, B_P, B_4] != seq![B_I, B_P, B_6],
        seq![B_I, B_P, B_4] != seq![B_T, B_C, B_P],
        seq![B_I, B_P, B_4] != seq![B_U, B_D, B_P],
        seq![B_I, B_P, B_4] != seq![B_P, B_2, B_P],
        seq![B_I, B_P, B_4] != seq![B_D, B_N, B_S],
        seq![B_I, B_P, B_4] != seq![B_W, B_S, B_S],
        seq![B_I, B_P, B_6] != seq![B_T, B_C, B_P],
        seq![B_I, B_P, B_6] != seq![B_U, B_D, B_P],
        seq![B_I, B_P, B_6] != seq![B_P, B_2, B_P],
        seq![B_I, B_P, B_6] != seq![B_D, B_N, B_S],
        seq![B_I, B_P, B_6] != seq![B_W, B_S, B_S],
        seq![B_T, B_C, B_P] != seq![B_U, B_D, B_P],
        seq![B_T, B_C, B_P] != seq![B_P, B_2, B_P],
        seq![B_T, B_C, B_P] != seq![B_D, B_N, B_S],
        seq![B_T, B_C, B_P] != seq![B_W, B_S, B_S],
        seq![B_U, B_D, B_P] != seq![B_P, B_2, B_P],
        seq![B_U, B_D, B_P] != seq![B_D, B_N, B_S],
        seq![B_U, B_D, B_P] != seq![B_W, B_S, B_S],
        seq![B_P, B_2, B_P] != seq![B_D, B_N, B_S],
        seq![B_P, B_2, B_P] != seq![B_W, B_S, B_S],
        seq![B_D, B_N, B_S] != seq![B_W, B_S, B_S],
        seq![B_Q, B_U, B_I, B_C] != seq![B_D, B_N, B_S, B_4],
        seq![B_Q, B_U, B_I, B_C] != seq![B_D, B_N, B_S, B_6],
        seq![B_D, B_N, B_S, B_4] != seq![B_D, B_N, B_S, B_6],
{
    assert(seq![B_I, B_P, B_4][2] == B_4 && seq![B_I, B_P, B_6][2] == B_6);
    assert(seq![B_I, B_P, B_4][0] == B_I && seq![B_T, B_C, B_P][0] == B_T);
    assert(seq![B_U, B_D, B_P][0] == B_U && seq![B_P, B_2, B_P][0] == B_P);
    assert(seq![B_D, B_N, B_S][0] == B_D && seq![B_W, B_S, B_S][0] == B_W);
    assert(seq![B_Q, B_U, B_I, B_C][0] == B_Q && seq![B_D, B_N, B_S, B_4][0] == B_D);
    assert(seq![B_D, B_N, B_S, B_4][3] == B_4 && seq![B_D, B_N, B_S, B_6][3] == B_6);
}

/// The outcome of reading one component.
enum Step {
    /// A component, and the position right after it.
    SComp(Component, usize),
    /// The input from the current position on is an opaque trailer.
    STail(Vec<u8>),
    /// The input is not an address.
    SFail,
}

/// Reads one component of the textual form at position `i`.
#[verifier::rlimit(100)]
fn parse_step(s: &[u8], i: usize) -> (r: Step)
    requires
        i < s@.len(),
    ensures
        match r {
            Step::SComp(c, n) => {
                &&& i < n <= s@.len()
                &&& c@.wf()
                &&& (spec_parse_at(s@, n as int) is Some ==> spec_parse_at(s@, i as int) == Some(
                    (
                        seq![c@] + spec_parse_at(s@, n as int).unwrap().0,
                        spec_parse_at(s@, n as int).unwrap().1,
                    ),
                ))
                &&& (spec_parse_at(s@, n as int) is None ==> spec_parse_at(s@, i as int) is None)
            },
            Step::STail(tr) => {
                &&& tr@ == s@.subrange(i as int, s@.len() as int)
                &&& tr@.len() > 0 && tr@[0] == SLASH
                &&& spec_parse_at(s@, i as int) == Some((Seq::<SpecComponent>::empty(), tr@))
            },
            Step::SFail => spec_parse_at(s@, i as int) is None,
        },
{
    proof {
        lemma_distinct_names();
    }
    if s[i] != SLASH {
        return Step::SFail;
    }
    let j = find_stop_within(s, i + 1, s.len(), SLASH);
    proof {
        lemma_run_len_char(s@, i as int + 1, j as int, SLASH);
    }
    if j == i + 1 {
        return Step::SFail;
    }
    let ghost name = s@.subrange(i as int + 1, j as int);
    let kind = classify_name(s, i + 1, j);
    let noarg: Option<Component> = match kind {
        NameKind::KQuic => Some(Component::Quic),
        NameKind::KQuicV1 => Some(Component::QuicV1),
        NameKind::KWs => Some(Component::Ws),
        NameKind::KWss => Some(Component::Wss),
        NameKind::KWebrtcDirect => Some(Component::WebrtcDirect),
        NameKind::KWebtransport => Some(Component::Webtransport),
        _ => None,
    };
    match noarg {
        Some(c) => {
            proof {
                assert(noarg_spec_component(name) == Some(c@));
                if spec_parse_at(s@, j as int) is Some {
                    let ct = spec_parse_at(s@, j as int).unwrap();
                    assert(spec_parse_at(s@, i as int) == Some((seq![c@] + ct.0, ct.1)));
                } else {
                    assert(spec_parse_at(s@, i as int) is None);
                }
            }
            return Step::SComp(c, j);
        },
        None => {},
    }
    match kind {
        NameKind::KUnknown => {
            let tr = copy_range(s, i, s.len());
            proof {
                assert(spec_parse_at(s@, i as int) == Some(
                    (Seq::<SpecComponent>::empty(), s@.subrange(i as int, s@.len() as int)),
                ));
            }
            Step::STail(tr)
        },
        NameKind::KIp4 | NameKind::KIp6 | NameKind::KTcp | NameKind::KUdp | NameKind::KP2p
        | NameKind::KDns | NameKind::KDns4 | NameKind::KDns6 => {
            proof {
                assert(noarg_spec_component(name) is None);
                assert(is_arg_name(name));
            }
            if j == s.len() {
                return Step::SFail;
            }
            let k = find_stop_within(s, j + 1, s.len(), SLASH);
            proof {
                lemma_run_len_char(s@, j as int + 1, k as int, SLASH);
            }
            let ghost argg = s@.subrange(j as int + 1, k as int);
            let oc: Option<Component> = match kind {
                NameKind::KIp4 => parse_ip4_arg(s, j + 1, k),
                NameKind::KTcp => match parse_dec_seg(s, j + 1, k, 65535) {
                    Some(v) => Some(Component::Tcp(v as u16)),
                    None => None,
                },
                NameKind::KUdp => match parse_dec_seg(s, j + 1, k, 65535) {
                    Some(v) => Some(Component::Udp(v as u16)),
                    None => None,
                },
                NameKind::KIp6 => {
                    if check_ip6_range(s, j + 1, k) {
                        Some(Component::Ip6(copy_range(s, j + 1, k)))
                    } else {
                        None
                    }
                },
                NameKind::KP2p => {
                    if check_p2p_range(s, j + 1, k) {
                        Some(Component::P2p(copy_range(s, j + 1, k)))
                    } else {
                        None
                    }
                },
                NameKind::KDns => {
                    if check_text_range(s, j + 1, k) {
                        Some(Component::Dns(copy_range(s, j + 1, k)))
                    } else {
                        None
                    }
                },
                NameKind::KDns4 => {
                    if check_text_range(s, j + 1, k) {
                        Some(Component::Dns4(copy_range(s, j + 1, k)))
                    } else {
                        None
                    }
                },
                NameKind::KDns6 => {
                    if check_text_range(s, j + 1, k) {
                        Some(Component::Dns6(copy_range(s, j + 1, k)))
                    } else {
                        None
                    }
                },
                _ => {
                    proof {
                        assert(false);
                    }
                    None
                },
            };
            match oc {
                Some(c) => {
                    proof {
                        assert(arg_spec_component(name, argg) == Some(c@));
                        assert(c@.wf());
                        if spec_parse_at(s@, k as int) is Some {
                            let ct = spec_parse_at(s@, k as int).unwrap();
                            assert(spec_parse_at(s@, i as int) == Some((seq![c@] + ct.0, ct.1)));
                        } else {
                            assert(spec_parse_at(s@, i as int) is None);
                        }
                    }
                    Step::SComp(c, k)
                },
                None => {
                    proof {
                        assert(arg_spec_component(name, argg) is None);
                        assert(spec_parse_at(s@, i as int) is None);
                    }
                    Step::SFail
                },
            }
        },
        _ => {
            proof {
                assert(false);
            }
            Step::SFail
        },
    }
}

impl Multiaddr {
    /// Parses an address from its textual (byte) form: exactly the
    /// grammar of [`spec_parse`]. A successful parse re-serialises to the
    /// input, byte for byte.
    pub fn parse_bytes(s: &[u8]) -> (r: Option<Multiaddr>)
        ensures
            match r {
                Some(m) => {
                    &&& spec_parse(s@) == Some((m.spec_components(), m.spec_trailer()))
                    &&& m.wf()
                    &&& m.spec_bytes() == s@
                },
                None => spec_parse(s@) is None,
            },
    {
        let mut comps: Vec<Component> = Vec::new();
        let mut i: usize = 0;
        proof {
            if spec_parse_at(s@, 0) is Some {
                let ct = spec_parse_at(s@, 0).unwrap();
                assert(comps@.map_values(|c: Component| c@) =~= Seq::<SpecComponent>::empty());
                assert(comps@.map_values(|c: Component| c@) + ct.0 =~= ct.0);
            }
        }
        loop
            invariant
                0 <= i <= s@.len(),
                forall|x: int| 0 <= x < comps@.len() ==> (#[trigger] comps@[x]@).wf(),
                spec_parse_at(s@, i as int) is Some ==> spec_parse(s@) == Some(
                    (
                        comps@.map_values(|c: Component| c@) + spec_parse_at(
                            s@,
                            i as int,
                        ).unwrap().0,
                        spec_parse_at(s@, i as int).unwrap().1,
                    ),
                ),
                spec_parse_at(s@, i as int) is None ==> spec_parse(s@) is None,
            decreases s@.len() - i,
        {
            if i == s.len() {
                let m = Multiaddr { components: comps, trailer: Vec::new() };
                proof {
                    let ct = spec_parse_at(s@, i as int).unwrap();
                    assert(m.spec_trailer() =~= ct.1);
                    assert(m.spec_components() + ct.0 =~= m.spec_components());
                    assert(spec_parse(s@) == Some((m.spec_components(), m.spec_trailer())));
                    lemma_parse_roundtrip(s@);
                }
                return Some(m);
            }
            let step = parse_step(s, i);
            match step {
                Step::SComp(c, n) => {
                    let ghost cv = c@;
                    let ghost prev_i = i as int;
                    let ghost prev_view = comps@.map_values(|c: Component| c@);
                    comps.push(c);
                    i = n;
                    proof {
                        assert(comps@.map_values(|c: Component| c@) =~= prev_view.push(cv));
                        assert forall|x: int| 0 <= x < comps@.len() implies (
                        #[trigger] comps@[x]@).wf() by {
                            if x < comps@.len() - 1 {
                                assert(comps@[x] == comps@.subrange(0, comps@.len() - 1)[x]);
                            }
                        }
                        if spec_parse_at(s@, i as int) is Some {
                            let ct = spec_parse_at(s@, i as int).unwrap();
                            assert(spec_parse_at(s@, prev_i) == Some((seq![cv] + ct.0, ct.1)));
                            assert(prev_view + (seq![cv] + ct.0) =~= prev_view.push(cv) + ct.0);
                        } else {
                            assert(spec_parse_at(s@, prev_i) is None);
                        }
                    }
                },
                Step::STail(tr) => {
                    let m = Multiaddr { components: comps, trailer: tr };
                    proof {
                        assert(m.spec_components() + Seq::<SpecComponent>::empty()
                            =~= m.spec_components());
                        assert(spec_parse(s@) == Some((m.spec_components(), m.spec_trailer())));
                        lemma_parse_roundtrip(s@);
                    }
                    return Some(m);
                },
                Step::SFail => {
                    return None;
                },
            }
        }
    }
}



/// Copies the bytes of a vector.
fn dup_bytes(v: &Vec<u8>) -> (r: Vec<u8>)
    ensures
        r@ == v@,
{
    let mut out: Vec<u8> = Vec::new();
    let mut i: usize = 0;
    while i < v.len()
        invariant
            0 <= i <= v@.len(),
            out@ == v@.subrange(0, i as int),
        decreases v@.len() - i,
    {
        out.push(v[i]);
        proof {
            assert(v@.subrange(0, i as int + 1) =~= v@.subrange(0, i as int).push(v@[i as int]));
        }
        i += 1;
    }
    proof {
        assert(v@.subrange(0, v@.len() as int) =~= v@);
    }
    out
}

impl Component {
    /// A copy of this component, equal to it in the model.
    pub fn duplicate(&self) -> (r: Component)
        ensures
            r@ == self@,
    {
        match self {
            Component::Ip4(a, b, c, d) => Component::Ip4(*a, *b, *c, *d),
            Component::Ip6(t) => Component::Ip6(dup_bytes(t)),
            Component::Tcp(p) => Component::Tcp(*p),
            Component::Udp(p) => Component::Udp(*p),
            Component::Quic => Component::Quic,
            Component::QuicV1 => Component::QuicV1,
            Component::Ws => Component::Ws,
            Component::Wss => Component::Wss,
            Component::WebrtcDirect => Component::WebrtcDirect,
            Component::Webtransport => Component::Webtransport,
            Component::P2p(t) => Component::P2p(dup_bytes(t)),
            Component::Dns(t) => Component::Dns(dup_bytes(t)),
            Component::Dns4(t) => Component::Dns4(dup_bytes(t)),
            Component::Dns6(t) => Component::Dns6(dup_bytes(t)),
        }
    }
}

impl Multiaddr {
    /// A copy of this address, equal to it in the model.
    pub fn duplicate(&self) -> (r: Multiaddr)
        ensures
            r@ == self@,
    {
        let mut components: Vec<Component> = Vec::new();
        let mut i: usize = 0;
        while i < self.components.len()
            invariant
                0 <= i <= self.components@.len(),
                components@.map_values(|c: Component| c@) == self.components@.map_values(
                    |c: Component| c@,
                ).subrange(0, i as int),
            decreases self.components@.len() - i,
        {
            let ghost prev = components@.map_values(|c: Component| c@);
            let c = self.components[i].duplicate();
            let ghost cv = c@;
            components.push(c);
            proof {
                assert(components@.map_values(|c: Component| c@) =~= prev.push(cv));
                assert(self.components@.map_values(|c: Component| c@).subrange(0, i as int + 1)
                    =~= prev.push(self.components@.map_values(|c: Component| c@)[i as int]));
            }
            i += 1;
        }
        let trailer = dup_bytes(&self.trailer);
        let r = Multiaddr { components, trailer };
        proof {
            let f = |c: Component| c@;
            assert(self.components@.map_values(f).subrange(0, self.components@.len() as int)
                =~= self.components@.map_values(f));
            assert(r@ =~= self@);
        }
        r
    }

    /// Whether this address and `other` are the same address.
    pub fn same_as(&self, other: &Multiaddr) -> (r: bool)
        ensures
            r <==> self.spec_bytes() == other.spec_bytes(),
    {
        let a = self.to_bytes();
        let b = other.to_bytes();
        if a.len() != b.len() {
            return false;
        }
        let mut i: usize = 0;
        while i < a.len()
            invariant
                0 <= i <= a@.len(),
                a@.len() == b@.len(),
                a@ == self.spec_bytes(),
                b@ == other.spec_bytes(),
                forall|y: int| 0 <= y < i ==> a@[y] == b@[y],
            decreases a@.len() - i,
        {
            if a[i] != b[i] {
                return false;
            }
            i += 1;
        }
        proof {
            assert(a@ =~= b@);
        }
        true
    }
}

} // verus!
