//! ICMP messages.

use vstd::prelude::*;
use vstd::string::StringSliceAdditionalSpecFns;
use crate::schemes::kscheme::{KScheme, Service};
use crate::network::udp::{be16, push_be16, spec_be16, spec_be16_bytes};
use crate::text::{copy_from, push_all, str_bytes};

verus! {

/// The bytes of the header of a message.
pub const ICMP_HEADER_SIZE: usize = 8;

/// The type of an echo request.
pub const ECHO_REQUEST: u8 = 0x08;

/// The type of an echo reply.
pub const ECHO_REPLY: u8 = 0x00;

/// The header of a message. The checksum travels with the most
/// significant byte first.
#[derive(Clone, Copy, Debug, PartialEq, Eq)]
pub struct IcmpHeader {
    pub _type: u8,
    pub code: u8,
    pub checksum: u16,
    pub data: [u8; 4],
}

/// A message.
#[derive(Debug)]
pub struct Icmp {
    pub header: IcmpHeader,
    pub data: Vec<u8>,
}

/// The ICMP scheme.
#[derive(Clone, Copy, Debug, PartialEq, Eq, Structural)]
pub struct IcmpScheme;

/// The header that the first bytes of `bytes` hold.
pub open spec fn spec_icmp_header(bytes: Seq<u8>) -> IcmpHeader {
    IcmpHeader {
        _type: bytes[0],
        code: bytes[1],
        checksum: spec_be16(bytes[2], bytes[3]),
        data: [bytes[4], bytes[5], bytes[6], bytes[7]],
    }
}

/// The bytes of a header.
pub open spec fn spec_icmp_header_bytes(h: IcmpHeader) -> Seq<u8> {
    seq![h._type, h.code] + spec_be16_bytes(h.checksum) + seq![
        h.data@[0],
        h.data@[1],
        h.data@[2],
        h.data@[3],
    ]
}

impl Icmp {
    /// The message that `bytes` holds: a header and the data behind it.
    /// None where `bytes` is shorter than a header.
    pub fn from_bytes(bytes: &[u8]) -> (r: Option<Icmp>)
        ensures
            bytes@.len() < ICMP_HEADER_SIZE ==> r is None,
            bytes@.len() >= ICMP_HEADER_SIZE ==> r is Some && r->0.header == spec_icmp_header(
                bytes@,
            ) && r->0.data@ == bytes@.skip(8),
    {
        if bytes.len() >= ICMP_HEADER_SIZE {
            let header = IcmpHeader {
                _type: bytes[0],
                code: bytes[1],
                checksum: be16(bytes[2], bytes[3]),
                data: [bytes[4], bytes[5], bytes[6], bytes[7]],
            };
            Some(Icmp { header, data: copy_from(bytes, ICMP_HEADER_SIZE) })
        } else {
            None
        }
    }

    /// The bytes of the message: its header, then its data.
    pub fn to_bytes(&self) -> (bytes: Vec<u8>)
        ensures
            bytes@ == spec_icmp_header_bytes(self.header) + self.data@,
    {
        let mut bytes: Vec<u8> = Vec::new();
        bytes.push(self.header._type);
        bytes.push(self.header.code);
        push_be16(&mut bytes, self.header.checksum);
        bytes.push(self.header.data[0]);
        bytes.push(self.header.data[1]);
        bytes.push(self.header.data[2]);
        bytes.push(self.header.data[3]);
        assert(bytes@ =~= spec_icmp_header_bytes(self.header));
        push_all(&mut bytes, self.data.as_slice());
        bytes
    }
}

/// The bytes of a header hold that header.
pub proof fn lemma_icmp_header_round_trip(h: IcmpHeader, data: Seq<u8>)
    ensures
        (spec_icmp_header_bytes(h) + data).len() == ICMP_HEADER_SIZE + data.len(),
        spec_icmp_header(spec_icmp_header_bytes(h) + data) == h,
        (spec_icmp_header_bytes(h) + data).skip(8) == data,
{
    let bytes = spec_icmp_header_bytes(h) + data;
    assert(bytes.skip(8) =~= data);
    let back = spec_icmp_header(bytes);
    assert(back.data@ =~= h.data@);
    assert(back.data == h.data);
}

impl KScheme for IcmpScheme {
    type Handle = Icmp;

    /// The provider has a name.
    open spec fn provides(&self, op: Service) -> bool {
        op == Service::Scheme
    }

    /// The name of the scheme: `icmp`.
    fn scheme(&self) -> (name: Vec<u8>)
        ensures
            name@ == "icmp".spec_bytes(),
    {
        str_bytes("icmp")
    }
}

} // verus!
