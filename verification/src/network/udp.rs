//! UDP datagrams.

use vstd::prelude::*;
use vstd::string::StringSliceAdditionalSpecFns;
use crate::schemes::kscheme::{KScheme, Service};
use crate::error::{Error, ENOENT};
use crate::text::{copy_range, find, lemma_find_from, push_range, spec_find, str_bytes};

verus! {

/// The bytes of the header of a datagram.
pub const UDP_HEADER_SIZE: usize = 8;

/// The header of a datagram. Each field travels with the most significant
/// byte first.
#[derive(Clone, Copy, Debug, PartialEq, Eq, Structural)]
pub struct UdpHeader {
    pub src: u16,
    pub dst: u16,
    pub len: u16,
    pub checksum: u16,
}

/// A datagram.
#[derive(Debug)]
pub struct Udp {
    pub header: UdpHeader,
    pub data: Vec<u8>,
}

/// The UDP scheme.
#[derive(Clone, Copy, Debug, PartialEq, Eq, Structural)]
pub struct UdpScheme;

/// The number that two bytes hold with the most significant byte first.
pub open spec fn spec_be16(high: u8, low: u8) -> u16 {
    (high as int * 256 + low as int) as u16
}

/// The two bytes of `n`, the most significant first.
pub open spec fn spec_be16_bytes(n: u16) -> Seq<u8> {
    seq![(n / 256) as u8, (n % 256) as u8]
}

/// The header that the first bytes of `bytes` hold.
pub open spec fn spec_udp_header(bytes: Seq<u8>) -> UdpHeader {
    UdpHeader {
        src: spec_be16(bytes[0], bytes[1]),
        dst: spec_be16(bytes[2], bytes[3]),
        len: spec_be16(bytes[4], bytes[5]),
        checksum: spec_be16(bytes[6], bytes[7]),
    }
}

/// The bytes of a header.
pub open spec fn spec_udp_header_bytes(h: UdpHeader) -> Seq<u8> {
    spec_be16_bytes(h.src) + spec_be16_bytes(h.dst) + spec_be16_bytes(h.len) + spec_be16_bytes(
        h.checksum,
    )
}

/// The number that two bytes hold with the most significant byte first.
pub fn be16(high: u8, low: u8) -> (n: u16)
    ensures
        n == spec_be16(high, low),
{
    (high as u16) * 256 + (low as u16)
}

/// Appends the two bytes of `n` to `out`, the most significant first.
pub fn push_be16(out: &mut Vec<u8>, n: u16)
    ensures
        final(out)@ == old(out)@ + spec_be16_bytes(n),
{
    out.push((n / 256) as u8);
    out.push((n % 256) as u8);
    assert(out@ =~= old(out)@ + spec_be16_bytes(n));
}

impl Udp {
    /// The datagram that `bytes` holds: a header and the data behind it.
    /// None where `bytes` is shorter than a header.
    pub fn from_bytes(bytes: &[u8]) -> (r: Option<Udp>)
        ensures
            bytes@.len() < UDP_HEADER_SIZE ==> r is None,
            bytes@.len() >= UDP_HEADER_SIZE ==> r is Some && r->0.header == spec_udp_header(bytes@)
                && r->0.data@ == bytes@.subrange(UDP_HEADER_SIZE as int, bytes@.len() as int),
    {
        if bytes.len() >= UDP_HEADER_SIZE {
            let header = UdpHeader {
                src: be16(bytes[0], bytes[1]),
                dst: be16(bytes[2], bytes[3]),
                len: be16(bytes[4], bytes[5]),
                checksum: be16(bytes[6], bytes[7]),
            };
            Some(Udp { header, data: copy_range(bytes, UDP_HEADER_SIZE, bytes.len()) })
        } else {
            None
        }
    }

    /// The bytes of the datagram: its header, then its data.
    pub fn to_bytes(&self) -> (bytes: Vec<u8>)
        ensures
            bytes@ == spec_udp_header_bytes(self.header) + self.data@,
    {
        let mut bytes: Vec<u8> = Vec::new();
        push_be16(&mut bytes, self.header.src);
        push_be16(&mut bytes, self.header.dst);
        push_be16(&mut bytes, self.header.len);
        push_be16(&mut bytes, self.header.checksum);
        assert(bytes@ =~= spec_udp_header_bytes(self.header));
        push_range(&mut bytes, self.data.as_slice(), 0, self.data.len());
        assert(self.data@.subrange(0, self.data@.len() as int) =~= self.data@);
        bytes
    }
}

/// The bytes of a header hold that header.
pub proof fn lemma_udp_header_round_trip(h: UdpHeader, data: Seq<u8>)
    ensures
        (spec_udp_header_bytes(h) + data).len() == UDP_HEADER_SIZE + data.len(),
        spec_udp_header(spec_udp_header_bytes(h) + data) == h,
        (spec_udp_header_bytes(h) + data).subrange(
            UDP_HEADER_SIZE as int,
            UDP_HEADER_SIZE + data.len(),
        ) == data,
{
    let bytes = spec_udp_header_bytes(h) + data;
    assert(bytes.subrange(UDP_HEADER_SIZE as int, UDP_HEADER_SIZE + data.len()) =~= data);
}

impl KScheme for UdpScheme {
    type Handle = Udp;

    /// The provider has a name.
    open spec fn provides(&self, op: Service) -> bool {
        op == Service::Scheme
    }

    /// The name of the scheme: `udp`.
    fn scheme(&self) -> (name: Vec<u8>)
        ensures
            name@ == "udp".spec_bytes(),
    {
        str_bytes("udp")
    }
}

// ---------------------------------------------------------------------------
// Opening a socket
// ---------------------------------------------------------------------------

pub const COLON: u8 = 0x3A;

pub const SLASH: u8 = 0x2F;

pub const PLUS: u8 = 0x2B;

/// The first of the ports that are given out where a socket names none.
pub const EPHEMERAL_BASE: u16 = 32768;

/// What a URL of the UDP scheme asks for.
#[derive(Debug, PartialEq, Eq)]
pub enum UdpTarget {
    /// To wait for a datagram at the port `port`.
    Listen { port: u16 },
    /// To talk to the port `peer_port` of the host `peer_addr`, from the
    /// port `host_port` or, where it is none, from a port that is picked.
    Connect { peer_addr: Vec<u8>, peer_port: u16, host_port: Option<u16> },
}

/// `s` up to the first `c`, and all of `s` where it holds none.
pub open spec fn spec_before(s: Seq<u8>, c: u8) -> Seq<u8> {
    match spec_find(s, c) {
        Some(k) => s.subrange(0, k),
        None => s,
    }
}

/// `s` behind the first `c`, and nothing where it holds none.
pub open spec fn spec_behind(s: Seq<u8>, c: u8) -> Seq<u8> {
    match spec_find(s, c) {
        Some(k) => s.subrange(k + 1, s.len() as int),
        None => Seq::empty(),
    }
}

/// The number that the decimal digits `s` stand for; none where a byte of
/// `s` is no digit.
pub open spec fn spec_digits(s: Seq<u8>) -> Option<nat>
    decreases s.len(),
{
    if s.len() == 0 {
        Some(0nat)
    } else if 0x30 <= s.last() <= 0x39 {
        match spec_digits(s.drop_last()) {
            Some(v) => Some(v * 10 + (s.last() - 0x30) as nat),
            None => None,
        }
    } else {
        None
    }
}

/// The port that the text `s` stands for: decimal digits, at least one,
/// with a plus sign before them or without, that stand for a number of 16
/// bits.
pub open spec fn spec_port(s: Seq<u8>) -> Option<u16> {
    let digits = if s.len() > 0 && s[0] == PLUS {
        s.subrange(1, s.len() as int)
    } else {
        s
    };
    if digits.len() == 0 {
        None
    } else {
        match spec_digits(digits) {
            Some(v) => if v <= u16::MAX {
                Some(v as u16)
            } else {
                None
            },
            None => None,
        }
    }
}

/// The digits of a number of more than 16 bits stay above 16 bits when
/// digits are added.
pub proof fn lemma_digits_grow(s: Seq<u8>, n: int)
    requires
        0 <= n <= s.len(),
        spec_digits(s.subrange(0, n)) matches Some(v) && v > u16::MAX,
    ensures
        spec_digits(s) matches Some(v) ==> v > u16::MAX,
    decreases s.len() - n,
{
    if n < s.len() {
        assert(s.subrange(0, n + 1).drop_last() =~= s.subrange(0, n));
        if spec_digits(s.subrange(0, n + 1)) is Some {
            lemma_digits_grow(s, n + 1);
        } else {
            lemma_digits_stop(s, n + 1);
        }
    } else {
        assert(s.subrange(0, n) =~= s);
    }
}

/// Digits behind a byte that is no digit do not make a number.
pub proof fn lemma_digits_stop(s: Seq<u8>, n: int)
    requires
        0 <= n <= s.len(),
        spec_digits(s.subrange(0, n)) is None,
    ensures
        spec_digits(s) is None,
    decreases s.len() - n,
{
    if n < s.len() {
        assert(s.subrange(0, n + 1).drop_last() =~= s.subrange(0, n));
        lemma_digits_stop(s, n + 1);
    } else {
        assert(s.subrange(0, n) =~= s);
    }
}

/// Reads a port.
pub fn parse_port(s: &[u8]) -> (r: Option<u16>)
    ensures
        r == spec_port(s@),
{
    let start: usize = if s.len() > 0 && s[0] == PLUS {
        1
    } else {
        0
    };
    let ghost digits = s@.subrange(start as int, s@.len() as int);
    proof {
        if start == 0 {
            assert(digits =~= s@);
        }
    }
    if start == s.len() {
        return None;
    }
    let mut value: u32 = 0;
    let mut k: usize = start;
    assert(digits.subrange(0, 0) =~= Seq::<u8>::empty());
    while k < s.len()
        invariant
            start <= k <= s.len(),
            digits == s@.subrange(start as int, s@.len() as int),
            digits.len() > 0,
            start <= 1,
            start == 0 ==> digits == s@,
            start == 1 <==> s@.len() > 0 && s@[0] == PLUS,
            spec_digits(digits.subrange(0, k - start)) == Some(value as nat),
            value <= u16::MAX,
        decreases s.len() - k,
    {
        let c = s[k];
        proof {
            let next = digits.subrange(0, k - start + 1);
            assert(next.drop_last() =~= digits.subrange(0, k - start));
            assert(next.last() == c);
        }
        if c < 0x30 || c > 0x39 {
            proof {
                assert(spec_digits(digits.subrange(0, k - start + 1)) is None);
                lemma_digits_stop(digits, k - start + 1);
            }
            return None;
        }
        value = value * 10 + (c - 0x30) as u32;
        assert(spec_digits(digits.subrange(0, k - start + 1)) == Some(value as nat));
        if value > 0xFFFF {
            proof {
                lemma_digits_grow(digits, k - start + 1);
            }
            return None;
        }
        k += 1;
    }
    assert(digits.subrange(0, digits.len() as int) =~= digits);
    Some(value as u16)
}

/// What the URL `url` asks for.
///
/// Behind the colon stand the remote side, a slash, and the port of the
/// own side. Without a remote side the socket waits at the own port. The
/// remote side is an address, a colon and a port; the own port may be
/// missing. A port that is missing where it is needed, that is no number,
/// or that is 0 fails with `ENOENT`, but a missing or unreadable own port
/// of a socket with a remote side is picked.
pub open spec fn spec_target(url: Seq<u8>) -> Option<(Seq<u8>, u16, Option<u16>)> {
    let reference = spec_behind(url, COLON);
    let remote = spec_before(reference, SLASH);
    let path = spec_before(spec_behind(reference, SLASH), SLASH);
    if remote.len() == 0 {
        match spec_port(path) {
            Some(host_port) => if host_port > 0 {
                Some((Seq::<u8>::empty(), 0u16, Some(host_port)))
            } else {
                None
            },
            None => None,
        }
    } else {
        let peer_addr = spec_before(remote, COLON);
        match spec_port(spec_before(spec_behind(remote, COLON), COLON)) {
            Some(peer_port) => if peer_port > 0 {
                Some((peer_addr, peer_port, spec_port(path)))
            } else {
                None
            },
            None => None,
        }
    }
}

/// `s` up to the first `c`.
fn before(s: &[u8], c: u8) -> (r: Vec<u8>)
    ensures
        r@ == spec_before(s@, c),
{
    match find(s, c) {
        Some(k) => copy_range(s, 0, k),
        None => {
            let r = copy_range(s, 0, s.len());
            assert(s@.subrange(0, s@.len() as int) =~= s@);
            r
        },
    }
}

/// `s` behind the first `c`.
fn behind(s: &[u8], c: u8) -> (r: Vec<u8>)
    ensures
        r@ == spec_behind(s@, c),
{
    match find(s, c) {
        Some(k) => {
            assert(k < s.len());
            copy_range(s, k + 1, s.len())
        },
        None => Vec::new(),
    }
}

impl UdpScheme {
    /// Tells what the URL `url` asks for.
    pub fn target(url: &[u8]) -> (r: Result<UdpTarget, Error>)
        ensures
            match spec_target(url@) {
                None => r == Err::<UdpTarget, Error>(Error { errno: ENOENT }),
                Some((peer_addr, peer_port, host_port)) => if peer_port == 0 {
                    r == Ok::<UdpTarget, Error>(UdpTarget::Listen { port: host_port->0 })
                } else {
                    r matches Ok(UdpTarget::Connect { peer_addr: a, peer_port: p, host_port: h })
                        && a@ == peer_addr && p == peer_port && h == host_port
                },
            },
    {
        let reference = behind(url, COLON);
        let remote = before(reference.as_slice(), SLASH);
        let rest = behind(reference.as_slice(), SLASH);
        let path = before(rest.as_slice(), SLASH);
        if remote.len() == 0 {
            match parse_port(path.as_slice()) {
                Some(host_port) => if host_port > 0 {
                    Ok(UdpTarget::Listen { port: host_port })
                } else {
                    Err(Error::new(ENOENT))
                },
                None => Err(Error::new(ENOENT)),
            }
        } else {
            let peer_addr = before(remote.as_slice(), COLON);
            let port_text = behind(remote.as_slice(), COLON);
            let port = before(port_text.as_slice(), COLON);
            match parse_port(port.as_slice()) {
                Some(peer_port) => if peer_port > 0 {
                    let host_port = parse_port(path.as_slice());
                    Ok(UdpTarget::Connect { peer_addr, peer_port, host_port })
                } else {
                    Err(Error::new(ENOENT))
                },
                None => Err(Error::new(ENOENT)),
            }
        }
    }

    /// The port that is picked for the number `random`: one of the upper
    /// half of the ports.
    pub fn pick_port(random: usize) -> (port: u16)
        ensures
            port == EPHEMERAL_BASE + random % 32768,
    {
        ((random % 32768) as u16) + EPHEMERAL_BASE
    }
}

impl UdpHeader {
    /// Tells whether a datagram with this header is for a socket at the
    /// port `host_port` that talks to the port `peer_port`.
    pub fn accepts(&self, host_port: u16, peer_port: u16) -> (r: bool)
        ensures
            r == (self.dst == host_port && self.src == peer_port),
    {
        self.dst == host_port && self.src == peer_port
    }

    /// The header of a datagram of `len` bytes of data from the port
    /// `host_port` to the port `peer_port`, with no checksum yet. The
    /// length counts the header, and holds as much as 16 bits hold of it.
    pub fn outgoing(host_port: u16, peer_port: u16, len: usize) -> (h: UdpHeader)
        ensures
            h == (UdpHeader {
                src: host_port,
                dst: peer_port,
                len: ((UDP_HEADER_SIZE + len) % 0x1_0000) as u16,
                checksum: 0,
            }),
    {
        let total: usize = (len % 0x1_0000) + UDP_HEADER_SIZE;
        UdpHeader { src: host_port, dst: peer_port, len: (total % 0x1_0000) as u16, checksum: 0 }
    }
}

} // verus!
