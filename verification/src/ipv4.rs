//! The IPv4 header decoder: version and header length from the first byte,
//! the protocol field, source and destination addresses, and the payload
//! that follows the header.

use vstd::prelude::*;

verus! {

/// Why an IPv4 datagram could not be decoded.
#[derive(Clone, Copy, Debug, PartialEq, Eq, Structural)]
pub enum Ipv4Error {
    /// The buffer is shorter than the 20-byte minimum header.
    InvalidHeader,
    /// The version nibble is not 4.
    InvalidVersion,
    /// The buffer is shorter than its own declared header length.
    InvalidHeaderSize,
    /// The protocol field names a protocol other than ICMP.
    UnsupportedProtocol,
}

/// The protocols a datagram may carry; only ICMP is understood.
#[derive(Clone, Copy, Debug, PartialEq, Eq, Structural)]
pub enum IPV4Protocol {
    Icmp,
}

impl IPV4Protocol {
    /// Decodes the protocol byte of an IPv4 header.
    pub fn decode(data: u8) -> (r: Option<IPV4Protocol>)
        ensures
            r == if data == 1 {
                Some(IPV4Protocol::Icmp)
            } else {
                None::<IPV4Protocol>
            },
    {
        match data {
            1 => Some(IPV4Protocol::Icmp),
            _ => None,
        }
    }
}

/// The header length in bytes declared by the low nibble of the first byte.
pub open spec fn header_len(b: Seq<u8>) -> int
    recommends
        b.len() >= 1,
{
    4 * (b[0] & 0x0f)
}

/// The version declared by the high nibble of the first byte.
pub open spec fn version_of(b: Seq<u8>) -> u8
    recommends
        b.len() >= 1,
{
    b[0] >> 4
}

/// The big-endian 16-bit value at offset `i`.
pub open spec fn be16_at(b: Seq<u8>, i: int) -> u16
    recommends
        0 <= i && i + 2 <= b.len(),
{
    (b[i] * 0x100 + b[i + 1]) as u16
}

/// The big-endian 32-bit value at offset `i`.
pub open spec fn be32_at(b: Seq<u8>, i: int) -> u32
    recommends
        0 <= i && i + 4 <= b.len(),
{
    (b[i] * 0x1000000 + b[i + 1] * 0x10000 + b[i + 2] * 0x100 + b[i + 3]) as u32
}

/// A buffer decodes as an IPv4 datagram carrying ICMP exactly when it holds
/// a full header, its version nibble is 4, it is at least as long as its
/// declared header length, and its protocol byte is 1 (ICMP).
pub open spec fn decode_ok(b: Seq<u8>) -> bool {
    b.len() >= 20 && version_of(b) == 4 && b.len() >= header_len(b) && b[9] == 1
}

/// The payload that follows the header: every byte from the declared header
/// length to the end of the buffer.
pub open spec fn data_of(b: Seq<u8>) -> Seq<u8>
    recommends
        decode_ok(b),
{
    b.skip(header_len(b))
}

/// A decoded IPv4 header and its payload.
pub struct IPV4Packet {
    pub version: u8,
    pub ihl: u8,
    pub tos: u8,
    pub tot_len: u16,
    pub id: u16,
    pub frag_off: u16,
    pub ttl: u8,
    pub protocol: IPV4Protocol,
    pub check: u16,
    pub from_addr: u32,
    pub dest_addr: u32,
    pub data: Vec<u8>,
}

impl IPV4Packet {
    /// Decodes a raw datagram. Failures are reported in the order the
    /// header is validated: overall length, version, declared header
    /// length, then protocol.
    pub fn decode(buffer: &[u8]) -> (r: Result<IPV4Packet, Ipv4Error>)
        ensures
            buffer@.len() < 20 ==> r == Err::<IPV4Packet, Ipv4Error>(Ipv4Error::InvalidHeader),
            buffer@.len() >= 20 && version_of(buffer@) != 4 ==> r == Err::<IPV4Packet, Ipv4Error>(
                Ipv4Error::InvalidVersion,
            ),
            buffer@.len() >= 20 && version_of(buffer@) == 4 && buffer@.len() < header_len(buffer@)
                ==> r == Err::<IPV4Packet, Ipv4Error>(Ipv4Error::InvalidHeaderSize),
            buffer@.len() >= 20 && version_of(buffer@) == 4 && buffer@.len() >= header_len(buffer@)
                && buffer@[9] != 1 ==> r == Err::<IPV4Packet, Ipv4Error>(
                Ipv4Error::UnsupportedProtocol,
            ),
            decode_ok(buffer@) ==> (r matches Ok(p) && p.version == 4 && p.ihl == (buffer@[0]
                & 0x0f) && p.tos == buffer@[1] && p.tot_len == be16_at(buffer@, 2) && p.id
                == be16_at(buffer@, 4) && p.frag_off == be16_at(buffer@, 6) && p.ttl == buffer@[8]
                && p.protocol == IPV4Protocol::Icmp && p.check == be16_at(buffer@, 10)
                && p.from_addr == be32_at(buffer@, 12) && p.dest_addr == be32_at(buffer@, 16)
                && p.data@ == data_of(buffer@)),
    {
        if buffer.len() < 20 {
            return Err(Ipv4Error::InvalidHeader);
        }
        let byte0 = buffer[0];
        let version = (byte0 & 0xf0) >> 4;
        let header_size: usize = 4 * ((byte0 & 0x0f) as usize);
        assert((byte0 & 0xf0) >> 4 == byte0 >> 4) by (bit_vector);
        assert(byte0 & 0x0f < 0x10) by (bit_vector);

        if version != 4 {
            return Err(Ipv4Error::InvalidVersion);
        }
        if buffer.len() < header_size {
            return Err(Ipv4Error::InvalidHeaderSize);
        }
        let protocol = match IPV4Protocol::decode(buffer[9]) {
            Some(p) => p,
            None => {
                return Err(Ipv4Error::UnsupportedProtocol);
            },
        };

        let mut data: Vec<u8> = Vec::new();
        let mut k: usize = header_size;
        proof {
            assert(data@ =~= buffer@.subrange(header_size as int, header_size as int));
        }
        while k < buffer.len()
            invariant
                header_size <= k <= buffer@.len(),
                data@ == buffer@.subrange(header_size as int, k as int),
            decreases buffer@.len() - k,
        {
            data.push(buffer[k]);
            proof {
                assert(buffer@.subrange(header_size as int, k + 1) =~= buffer@.subrange(
                    header_size as int,
                    k as int,
                ).push(buffer@[k as int]));
            }
            k = k + 1;
        }
        proof {
            assert(data@ =~= data_of(buffer@));
        }

        Ok(
            IPV4Packet {
                version,
                ihl: byte0 & 0x0f,
                tos: buffer[1],
                tot_len: (buffer[2] as u16) * 0x100 + (buffer[3] as u16),
                id: (buffer[4] as u16) * 0x100 + (buffer[5] as u16),
                frag_off: (buffer[6] as u16) * 0x100 + (buffer[7] as u16),
                ttl: buffer[8],
                protocol,
                check: (buffer[10] as u16) * 0x100 + (buffer[11] as u16),
                from_addr: (buffer[12] as u32) * 0x1000000 + (buffer[13] as u32) * 0x10000 + (
                buffer[14] as u32) * 0x100 + (buffer[15] as u32),
                dest_addr: (buffer[16] as u32) * 0x1000000 + (buffer[17] as u32) * 0x10000 + (
                buffer[18] as u32) * 0x100 + (buffer[19] as u32),
                data,
            },
        )
    }
}

} // verus!
