//! The compact binary wire protocol.
//!
//! Two frame kinds travel between the peers and the broker, each a single
//! UDP datagram:
//!
//! * registration ("stun") frames: `[frame kind][role][name bytes]`;
//! * introduction ("conn") frames:
//!   `[frame kind][role][address size: 4 or 16][address octets][port, big endian][name bytes]`.
//!
//! The name always consumes the rest of the datagram. Decoding never panics:
//! the top-level [`decode`] turns every malformed buffer into
//! [`Message::Unknown`] so a receive loop survives garbage input.

use vstd::prelude::*;
use vstd::slice::{slice_subrange, slice_to_vec};
use vstd::string::StringSliceAdditionalSpecFns;
use vstd::string::StringExecFns;
use vstd::utf8::{decode_utf8, encode_utf8, encode_utf8_decode_utf8, encode_utf8_valid_utf8,
    valid_utf8};

use crate::addr::{AddrModel, SockAddr};
use crate::endpoint::Kind;

verus! {

/// Carrier for a codec failure; it holds the human-readable cause.
#[derive(Debug)]
pub struct FmtError {
    msg: String,
}

impl View for FmtError {
    type V = Seq<char>;

    closed spec fn view(&self) -> Seq<char> {
        self.msg@
    }
}

impl FmtError {
    pub fn new(msg: &str) -> (r: Self)
        ensures
            r@ == msg@,
    {
        FmtError { msg: String::from_str(msg) }
    }

    pub fn message(&self) -> (r: &str)
        ensures
            r@ == self@,
    {
        self.msg.as_str()
    }
}

/// The first byte of every frame: which kind of frame follows.
#[derive(PartialEq, Eq, Structural, Clone, Copy)]
pub enum MessageKind {
    Unknown,
    Stun,
    Conn,
}

impl MessageKind {
    /// The byte this frame kind serializes to.
    pub open spec fn spec_byte(self) -> u8 {
        match self {
            MessageKind::Unknown => 0,
            MessageKind::Stun => 1,
            MessageKind::Conn => 2,
        }
    }

    /// The frame kind a byte decodes to.
    pub open spec fn spec_from(b: u8) -> MessageKind {
        if b == 1 {
            MessageKind::Stun
        } else if b == 2 {
            MessageKind::Conn
        } else {
            MessageKind::Unknown
        }
    }

    pub fn byte(self) -> (b: u8)
        ensures
            b == self.spec_byte(),
    {
        match self {
            MessageKind::Unknown => 0,
            MessageKind::Stun => 1,
            MessageKind::Conn => 2,
        }
    }

    pub fn from(b: u8) -> (k: MessageKind)
        ensures
            k == MessageKind::spec_from(b),
    {
        match b {
            1 => MessageKind::Stun,
            2 => MessageKind::Conn,
            _ => MessageKind::Unknown,
        }
    }
}

/// What `String::from_utf8_lossy` makes of bytes that are not valid UTF-8.
/// The replacement scheme is a pure function of the bytes; only the name is
/// needed here, since the protocol round-trips names that came from strings.
pub uninterp spec fn lossy_decode(bytes: Seq<u8>) -> Seq<char>;

/// The name decoded from the trailing bytes of a frame: an exact UTF-8
/// decode when the bytes are valid UTF-8, the lossy replacement otherwise.
pub open spec fn name_of_bytes(bytes: Seq<u8>) -> Seq<char> {
    if valid_utf8(bytes) {
        decode_utf8(bytes)
    } else {
        lossy_decode(bytes)
    }
}

/// Relies on `String::from_utf8_lossy`: bytes that are valid UTF-8 decode to
/// exactly the characters they encode, and any other byte sequence is
/// replaced deterministically, as a function of the bytes alone.
#[verifier::external_body]
fn lossy_string(b: &[u8]) -> (r: String)
    ensures
        r@ == (if valid_utf8(b@) {
            decode_utf8(b@)
        } else {
            lossy_decode(b@)
        }),
{
    String::from_utf8_lossy(b).into_owned()
}

/// The high byte of a port in network byte order.
pub open spec fn port_hi(p: u16) -> u8 {
    (p / 256) as u8
}

/// The low byte of a port in network byte order.
pub open spec fn port_lo(p: u16) -> u8 {
    (p % 256) as u8
}

/// The mathematical value of a [`StunMessage`].
#[verifier::ext_equal]
pub struct StunModel {
    pub kind: Kind,
    pub fqdn: Seq<char>,
}

/// The mathematical value of a [`ConnMessage`].
#[verifier::ext_equal]
pub struct ConnModel {
    pub kind: Kind,
    pub fqdn: Seq<char>,
    pub raddr: AddrModel,
}

/// The mathematical value of a [`Message`].
#[verifier::ext_equal]
pub enum MessageModel {
    Stun(StunModel),
    Conn(ConnModel),
    Unknown(Seq<u8>),
}

/// The bytes of a registration frame.
pub open spec fn spec_stun_encode(m: StunModel) -> Seq<u8> {
    seq![MessageKind::Stun.spec_byte(), m.kind.spec_byte()] + encode_utf8(m.fqdn)
}

/// The registration frame a buffer decodes to, if any.
pub open spec fn spec_stun_decode(b: Seq<u8>) -> Option<StunModel> {
    if b.len() <= 2 {
        None
    } else if MessageKind::spec_from(b[0]) != MessageKind::Stun {
        None
    } else {
        Some(StunModel { kind: Kind::spec_from(b[1]), fqdn: name_of_bytes(b.skip(2)) })
    }
}

/// The cause reported when a buffer is not a registration frame.
pub open spec fn spec_stun_decode_err(b: Seq<u8>) -> Option<Seq<char>> {
    if b.len() <= 2 {
        Some("size error"@)
    } else if MessageKind::spec_from(b[0]) != MessageKind::Stun {
        Some("not stun message"@)
    } else {
        None
    }
}

/// The bytes of an introduction frame.
pub open spec fn spec_conn_encode(m: ConnModel) -> Seq<u8> {
    seq![
        MessageKind::Conn.spec_byte(),
        m.kind.spec_byte(),
        m.raddr.octets.len() as u8,
    ] + m.raddr.octets + seq![port_hi(m.raddr.port), port_lo(m.raddr.port)] + encode_utf8(m.fqdn)
}

/// The introduction frame a buffer decodes to, if any.
pub open spec fn spec_conn_decode(b: Seq<u8>) -> Option<ConnModel> {
    if b.len() <= 2 {
        None
    } else if MessageKind::spec_from(b[0]) != MessageKind::Conn {
        None
    } else {
        let ip = b[2] as int;
        if ip != 4 && ip != 16 {
            None
        } else if b.len() < 5 + ip {
            None
        } else {
            Some(ConnModel {
                kind: Kind::spec_from(b[1]),
                fqdn: name_of_bytes(b.skip(5 + ip)),
                raddr: AddrModel {
                    octets: b.subrange(3, 3 + ip),
                    port: (b[3 + ip] * 256 + b[4 + ip]) as u16,
                },
            })
        }
    }
}

/// The cause reported when a buffer is not an introduction frame.
pub open spec fn spec_conn_decode_err(b: Seq<u8>) -> Option<Seq<char>> {
    if b.len() <= 2 {
        Some("size error"@)
    } else if MessageKind::spec_from(b[0]) != MessageKind::Conn {
        Some("not conn message"@)
    } else if b[2] != 4 && b[2] != 16 {
        Some("ip format error"@)
    } else if b.len() < 5 + b[2] as int {
        Some("size error"@)
    } else {
        None
    }
}

/// What the top-level decoder makes of a buffer: a registration frame, an
/// introduction frame, or the buffer itself tagged unrecognized.
pub open spec fn spec_decode(b: Seq<u8>) -> MessageModel {
    if b.len() == 0 {
        MessageModel::Unknown(b)
    } else if MessageKind::spec_from(b[0]) == MessageKind::Stun {
        match spec_stun_decode(b) {
            Some(m) => MessageModel::Stun(m),
            None => MessageModel::Unknown(b),
        }
    } else if MessageKind::spec_from(b[0]) == MessageKind::Conn {
        match spec_conn_decode(b) {
            Some(m) => MessageModel::Conn(m),
            None => MessageModel::Unknown(b),
        }
    } else {
        MessageModel::Unknown(b)
    }
}

/// A registration frame: a peer announces itself to the broker under a
/// logical name, and the broker acknowledges a new backend with the same
/// shape (role set to `Stun`).
#[derive(Clone)]
pub struct StunMessage {
    pub kind: Kind,
    pub fqdn: String,
}

impl View for StunMessage {
    type V = StunModel;

    open spec fn view(&self) -> StunModel {
        StunModel { kind: self.kind, fqdn: self.fqdn@ }
    }
}

impl StunMessage {
    pub fn default() -> (r: Self)
        ensures
            r@ == (StunModel { kind: Kind::Unknown, fqdn: Seq::<char>::empty() }),
    {
        StunMessage { kind: Kind::Unknown, fqdn: String::new() }
    }

    pub fn new(kind: Kind, fqdn: String) -> (r: Self)
        ensures
            r@ == (StunModel { kind, fqdn: fqdn@ }),
    {
        StunMessage { kind, fqdn }
    }

    /// Encodes the frame; a frame whose role is still unassigned is a local
    /// construction error and is never put on the wire.
    pub fn encode(self) -> (r: Result<Vec<u8>, FmtError>)
        ensures
            r is Ok <==> self.kind != Kind::Unknown,
            r matches Ok(v) ==> v@ == spec_stun_encode(self@),
            r matches Err(e) ==> e@ == "kind error"@,
    {
        if self.kind == Kind::Unknown {
            return Err(FmtError::new("kind error"));
        }
        let mut buf: Vec<u8> = Vec::new();
        buf.push(MessageKind::Stun.byte());
        buf.push(self.kind.byte());
        buf.extend_from_slice(self.fqdn.as_str().as_bytes());
        proof {
            assert(buf@ =~= spec_stun_encode(self@));
        }
        Ok(buf)
    }

    /// Fills `self` from a buffer holding a registration frame: at least
    /// one name byte after the two header bytes. Anything else is reported
    /// as an error and leaves `self` untouched.
    pub fn decode(&mut self, buf: &[u8]) -> (r: Result<(), FmtError>)
        ensures
            r is Ok <==> spec_stun_decode(buf@) is Some,
            r is Ok ==> Some(final(self)@) == spec_stun_decode(buf@),
            r is Err ==> *final(self) == *old(self),
            r matches Err(e) ==> Some(e@) == spec_stun_decode_err(buf@),
    {
        if buf.len() <= 2 {
            return Err(FmtError::new("size error"));
        }
        if MessageKind::from(buf[0]) != MessageKind::Stun {
            return Err(FmtError::new("not stun message"));
        }
        self.kind = Kind::from(buf[1]);
        self.fqdn = lossy_string(slice_subrange(buf, 2, buf.len()));
        Ok(())
    }
}

/// An introduction frame: carries a peer's public transport address. The
/// broker sends it to both matched parties, and the parties send it to each
/// other directly while punching.
#[derive(Clone)]
pub struct ConnMessage {
    pub kind: Kind,
    pub fqdn: String,
    pub raddr: SockAddr,
}

impl View for ConnMessage {
    type V = ConnModel;

    open spec fn view(&self) -> ConnModel {
        ConnModel { kind: self.kind, fqdn: self.fqdn@, raddr: self.raddr@ }
    }
}

impl ConnMessage {
    pub fn default() -> (r: Self)
        ensures
            r@ == (ConnModel {
                kind: Kind::Unknown,
                fqdn: Seq::<char>::empty(),
                raddr: AddrModel { octets: seq![0u8, 0u8, 0u8, 0u8], port: 0 },
            }),
    {
        let r = ConnMessage {
            kind: Kind::Unknown,
            fqdn: String::new(),
            raddr: SockAddr::new(vec![0u8, 0u8, 0u8, 0u8], 0),
        };
        proof {
            assert(r.raddr@.octets =~= seq![0u8, 0u8, 0u8, 0u8]);
        }
        r
    }

    pub fn new(kind: Kind, raddr: SockAddr, fqdn: String) -> (r: Self)
        ensures
            r@ == (ConnModel { kind, fqdn: fqdn@, raddr: raddr@ }),
    {
        ConnMessage { kind, fqdn, raddr }
    }

    /// Encodes the frame; only an IPv4 or an IPv6 address can be carried.
    pub fn encode(self) -> (r: Result<Vec<u8>, FmtError>)
        ensures
            r is Ok <==> self.raddr@.wf(),
            r matches Ok(v) ==> v@ == spec_conn_encode(self@),
            r matches Err(e) ==> e@ == "ip type error"@,
    {
        let ip_size: u8 = if self.raddr.is_ipv6() {
            16
        } else if self.raddr.is_ipv4() {
            4
        } else {
            return Err(FmtError::new("ip type error"));
        };
        let mut buf: Vec<u8> = Vec::new();
        buf.push(MessageKind::Conn.byte());
        buf.push(self.kind.byte());
        buf.push(ip_size);
        buf.extend_from_slice(self.raddr.octets.as_slice());
        buf.push((self.raddr.port / 256) as u8);
        buf.push((self.raddr.port % 256) as u8);
        buf.extend_from_slice(self.fqdn.as_str().as_bytes());
        proof {
            assert(buf@ =~= spec_conn_encode(self@));
        }
        Ok(buf)
    }

    /// Fills `self` from a buffer holding an introduction frame. A short
    /// buffer, a wrong frame kind or an address size other than four or
    /// sixteen is reported as an error and leaves `self` untouched.
    pub fn decode(&mut self, buf: &[u8]) -> (r: Result<(), FmtError>)
        ensures
            r is Ok <==> spec_conn_decode(buf@) is Some,
            r is Ok ==> Some(final(self)@) == spec_conn_decode(buf@),
            r is Err ==> *final(self) == *old(self),
            r matches Err(e) ==> Some(e@) == spec_conn_decode_err(buf@),
    {
        if buf.len() <= 2 {
            return Err(FmtError::new("size error"));
        }
        if MessageKind::from(buf[0]) != MessageKind::Conn {
            return Err(FmtError::new("not conn message"));
        }
        let kind = Kind::from(buf[1]);
        let ip_byte = buf[2];
        if ip_byte != 4 && ip_byte != 16 {
            return Err(FmtError::new("ip format error"));
        }
        let ip_size = ip_byte as usize;
        if buf.len() < 5 + ip_size {
            return Err(FmtError::new("size error"));
        }
        let octets = slice_to_vec(slice_subrange(buf, 3, 3 + ip_size));
        let hi = buf[3 + ip_size];
        let lo = buf[4 + ip_size];
        let port: u16 = (hi as u16) * 256 + (lo as u16);
        let fqdn = lossy_string(slice_subrange(buf, 5 + ip_size, buf.len()));
        self.kind = kind;
        self.raddr = SockAddr::new(octets, port);
        self.fqdn = fqdn;
        Ok(())
    }
}

/// Every frame a receive loop can see: one of the two frame kinds, or the
/// raw bytes of a buffer that decodes as neither.
pub enum Message {
    Stun(StunMessage),
    Conn(ConnMessage),
    Unknown(Vec<u8>),
}

impl View for Message {
    type V = MessageModel;

    open spec fn view(&self) -> MessageModel {
        match self {
            Message::Stun(m) => MessageModel::Stun(m@),
            Message::Conn(m) => MessageModel::Conn(m@),
            Message::Unknown(b) => MessageModel::Unknown(b@),
        }
    }
}

/// Decodes one datagram. Never panics: every buffer that holds neither
/// frame kind, the empty buffer included, comes back tagged unrecognized
/// with its bytes intact.
pub fn decode(buf: &[u8]) -> (m: Message)
    ensures
        m@ == spec_decode(buf@),
{
    if buf.len() == 0 {
        return Message::Unknown(slice_to_vec(buf));
    }
    match MessageKind::from(buf[0]) {
        MessageKind::Conn => {
            let mut msg = ConnMessage::default();
            if msg.decode(buf).is_err() {
                return Message::Unknown(slice_to_vec(buf));
            }
            Message::Conn(msg)
        },
        MessageKind::Stun => {
            let mut msg = StunMessage::default();
            if msg.decode(buf).is_err() {
                return Message::Unknown(slice_to_vec(buf));
            }
            Message::Stun(msg)
        },
        MessageKind::Unknown => Message::Unknown(slice_to_vec(buf)),
    }
}

/// What a handshake driver observed since its last step: the retry timer
/// fired, a datagram arrived (already decoded), or a non-blocking poll
/// found nothing yet.
pub enum PeerEvent {
    Tick,
    Frame(Message),
    Nothing,
}

/// Builds and encodes a registration frame for a role that is assigned, so
/// that encoding cannot fail.
pub(crate) fn encode_stun_frame(kind: Kind, fqdn: String) -> (r: Vec<u8>)
    requires
        kind != Kind::Unknown,
    ensures
        r@ == spec_stun_encode(StunModel { kind, fqdn: fqdn@ }),
{
    match StunMessage::new(kind, fqdn).encode() {
        Ok(d) => d,
        Err(_) => {
            proof {
                assert(false);
            }
            Vec::new()
        },
    }
}

/// Builds and encodes an introduction frame for a well-formed address, so
/// that encoding cannot fail.
pub(crate) fn encode_conn_frame(kind: Kind, raddr: SockAddr, fqdn: String) -> (r: Vec<u8>)
    requires
        raddr@.wf(),
    ensures
        r@ == spec_conn_encode(ConnModel { kind, fqdn: fqdn@, raddr: raddr@ }),
{
    match ConnMessage::new(kind, raddr, fqdn).encode() {
        Ok(d) => d,
        Err(_) => {
            proof {
                assert(false);
            }
            Vec::new()
        },
    }
}

/// Network-order port bytes reassemble to the port they came from.
proof fn lemma_port_round_trip(p: u16)
    ensures
        port_hi(p) * 256 + port_lo(p) == p,
{
    vstd::arithmetic::div_mod::lemma_fundamental_div_mod(p as int, 256);
}

/// Round trip for registration frames: decoding an encoded frame gives the
/// frame back, field for field. The one registration frame that does not
/// come back is the one with an empty name: its encoding is two bytes, which
/// the decoder rejects as too short.
pub proof fn lemma_stun_round_trip(m: StunModel)
    requires
        m.kind != Kind::Unknown,
        m.fqdn.len() > 0,
    ensures
        spec_stun_decode(spec_stun_encode(m)) == Some(m),
{
    let b = spec_stun_encode(m);
    encode_utf8_valid_utf8(m.fqdn);
    assert(encode_utf8(m.fqdn).len() > 0);
    assert(b.len() > 2);
    assert(b[0] == MessageKind::Stun.spec_byte());
    assert(b[1] == m.kind.spec_byte());
    assert(b.skip(2) =~= encode_utf8(m.fqdn));
    encode_utf8_decode_utf8(m.fqdn);
    assert(spec_stun_decode(b)->Some_0 =~= m);
}

/// Round trip for introduction frames, for both address families and any
/// role byte.
pub proof fn lemma_conn_round_trip(m: ConnModel)
    requires
        m.raddr.wf(),
    ensures
        spec_conn_decode(spec_conn_encode(m)) == Some(m),
{
    let b = spec_conn_encode(m);
    let ip = m.raddr.octets.len() as int;
    assert(b.len() == 5 + ip + encode_utf8(m.fqdn).len());
    assert(b[0] == MessageKind::Conn.spec_byte());
    assert(b[1] == m.kind.spec_byte());
    assert(b[2] == ip as u8);
    assert(b.subrange(3, 3 + ip) =~= m.raddr.octets);
    assert(b[3 + ip] == port_hi(m.raddr.port));
    assert(b[4 + ip] == port_lo(m.raddr.port));
    lemma_port_round_trip(m.raddr.port);
    assert(b.skip(5 + ip) =~= encode_utf8(m.fqdn));
    encode_utf8_valid_utf8(m.fqdn);
    encode_utf8_decode_utf8(m.fqdn);
    assert(spec_conn_decode(b)->Some_0 =~= m);
}

/// Round trip through the top-level decoder for registration frames.
pub proof fn lemma_decode_stun_encode(m: StunModel)
    requires
        m.kind != Kind::Unknown,
        m.fqdn.len() > 0,
    ensures
        spec_decode(spec_stun_encode(m)) == MessageModel::Stun(m),
{
    lemma_stun_round_trip(m);
}

/// Round trip through the top-level decoder for introduction frames.
pub proof fn lemma_decode_conn_encode(m: ConnModel)
    requires
        m.raddr.wf(),
    ensures
        spec_decode(spec_conn_encode(m)) == MessageModel::Conn(m),
{
    lemma_conn_round_trip(m);
}

/// Every buffer shorter than three bytes is unrecognized, bytes intact.
pub proof fn lemma_short_buffer_unrecognized(b: Seq<u8>)
    requires
        b.len() < 3,
    ensures
        spec_decode(b) == MessageModel::Unknown(b),
{
}

} // verus!

