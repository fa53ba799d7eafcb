//! The ICMP echo frame codec: type, code, checksum, identifier and sequence
//! as big-endian 16-bit fields, followed by the payload verbatim. Only echo
//! reply frames (type 0, code 0) decode successfully.

use vstd::prelude::*;
use crate::checksum::{
    checksum, checksum_spec, lemma_checksum_self_consistency, with_checksum,
};

verus! {

/// Why an ICMP frame could not be encoded or decoded.
#[derive(Clone, Copy, Debug, PartialEq, Eq, Structural)]
pub enum IcmpError {
    /// The inbound buffer is shorter than the 8-byte frame header.
    InvalidSize,
    /// The inbound frame is not an echo reply (type 0, code 0).
    InvalidPacket,
    /// The outbound buffer is smaller than the encoded frame.
    BufferTooSmall,
}

/// High byte of a 16-bit value in network order.
pub open spec fn be_hi(x: u16) -> u8 {
    (x / 0x100) as u8
}

/// Low byte of a 16-bit value in network order.
pub open spec fn be_lo(x: u16) -> u8 {
    (x % 0x100) as u8
}

/// The wire form of an echo frame: an 8-byte header followed by the payload.
pub open spec fn frame_bytes(
    typ: u8,
    code: u8,
    cks: u16,
    ident: u16,
    sequence: u16,
    payload: Seq<u8>,
) -> Seq<u8> {
    seq![
        typ,
        code,
        be_hi(cks),
        be_lo(cks),
        be_hi(ident),
        be_lo(ident),
        be_hi(sequence),
        be_lo(sequence),
    ] + payload
}

/// A buffer decodes as an echo reply exactly when it holds a full header and
/// both its type and code bytes are zero.
pub open spec fn decode_ok(b: Seq<u8>) -> bool {
    b.len() >= 8 && b[0] == 0 && b[1] == 0
}

/// The identifier carried by an echo frame's bytes.
pub open spec fn ident_of(b: Seq<u8>) -> u16
    recommends
        b.len() >= 8,
{
    (b[4] * 0x100 + b[5]) as u16
}

/// The sequence number carried by an echo frame's bytes.
pub open spec fn seq_of(b: Seq<u8>) -> u16
    recommends
        b.len() >= 8,
{
    (b[6] * 0x100 + b[7]) as u16
}

/// An ICMP echo request or reply frame.
pub struct ICMPPacket {
    pub typ: u8,
    pub code: u8,
    pub checksum: u16,
    pub ident: u16,
    pub sequence: u16,
    pub payload: Vec<u8>,
}

impl ICMPPacket {
    /// The frame's wire form with the given value in the checksum field.
    pub open spec fn bytes_with(&self, cks: u16) -> Seq<u8> {
        frame_bytes(self.typ, self.code, cks, self.ident, self.sequence, self.payload@)
    }

    /// The Internet checksum of the frame with the checksum field set to
    /// zero. Writing the result into the field makes the whole frame sum to
    /// zero once complemented.
    pub fn calculate_checksum(&self) -> (r: u16)
        ensures
            r == checksum_spec(self.bytes_with(0)),
            checksum_spec(self.bytes_with(r)) == 0,
    {
        let bytes = self.get_bytes(false);
        let r = checksum(bytes.as_slice());
        proof {
            let s = self.bytes_with(0);
            lemma_checksum_self_consistency(s);
            assert(with_checksum(s, checksum_spec(s)) =~= self.bytes_with(r));
        }
        r
    }

    /// The frame's wire form, with either the stored checksum or zero in the
    /// checksum field.
    pub fn get_bytes(&self, with_checksum: bool) -> (r: Vec<u8>)
        ensures
            r@ == self.bytes_with(if with_checksum { self.checksum } else { 0 }),
    {
        let cks: u16 = if with_checksum {
            self.checksum
        } else {
            0
        };
        let mut bytes: Vec<u8> = Vec::new();
        bytes.push(self.typ);
        bytes.push(self.code);
        bytes.push((cks / 0x100) as u8);
        bytes.push((cks % 0x100) as u8);
        bytes.push((self.ident / 0x100) as u8);
        bytes.push((self.ident % 0x100) as u8);
        bytes.push((self.sequence / 0x100) as u8);
        bytes.push((self.sequence % 0x100) as u8);
        bytes.extend_from_slice(self.payload.as_slice());
        proof {
            assert(bytes@ =~= self.bytes_with(cks));
        }
        bytes
    }

    /// Writes the frame into the front of `buffer`, leaving any bytes past
    /// the frame untouched. Fails when the buffer cannot hold the frame.
    pub fn encode(&self, buffer: &mut Vec<u8>) -> (r: Result<(), IcmpError>)
        ensures
            r is Ok <==> old(buffer)@.len() >= 8 + self.payload@.len(),
            r is Ok ==> final(buffer)@ == self.bytes_with(self.checksum) + old(buffer)@.skip(
                8 + self.payload@.len() as int,
            ),
            r is Err ==> final(buffer)@ == old(buffer)@ && r == Err::<(), IcmpError>(
                IcmpError::BufferTooSmall,
            ),
    {
        let n = self.payload.len();
        if buffer.len() < 8 || buffer.len() - 8 < n {
            return Err(IcmpError::BufferTooSmall);
        }
        let ghost target = self.bytes_with(self.checksum);
        buffer[0] = self.typ;
        buffer[1] = self.code;
        buffer[2] = (self.checksum / 0x100) as u8;
        buffer[3] = (self.checksum % 0x100) as u8;
        buffer[4] = (self.ident / 0x100) as u8;
        buffer[5] = (self.ident % 0x100) as u8;
        buffer[6] = (self.sequence / 0x100) as u8;
        buffer[7] = (self.sequence % 0x100) as u8;
        let mut k: usize = 0;
        while k < n
            invariant
                k <= n,
                8 + n <= usize::MAX,
                n == self.payload@.len(),
                buffer@.len() == old(buffer)@.len(),
                buffer@.len() >= 8 + n,
                target == self.bytes_with(self.checksum),
                forall|j: int| 0 <= j < 8 + k ==> buffer@[j] == target[j],
                forall|j: int| 8 + k <= j < buffer@.len() ==> buffer@[j] == old(buffer)@[j],
            decreases n - k,
        {
            buffer[8 + k] = self.payload[k];
            k = k + 1;
        }
        proof {
            assert(buffer@ =~= target + old(buffer)@.skip(8 + n as int));
        }
        Ok(())
    }

    /// Decodes an inbound buffer as an echo reply. The decoded checksum
    /// field is left zero; it is not carried forward.
    pub fn decode(buffer: &[u8]) -> (r: Result<ICMPPacket, IcmpError>)
        ensures
            buffer@.len() < 8 ==> r == Err::<ICMPPacket, IcmpError>(IcmpError::InvalidSize),
            buffer@.len() >= 8 && (buffer@[0] != 0 || buffer@[1] != 0) ==> r == Err::<
                ICMPPacket,
                IcmpError,
            >(IcmpError::InvalidPacket),
            decode_ok(buffer@) ==> (r matches Ok(p) && p.typ == 0 && p.code == 0 && p.checksum
                == 0 && p.ident == ident_of(buffer@) && p.sequence == seq_of(buffer@)
                && p.payload@ == buffer@.skip(8)),
    {
        if buffer.len() < 8 {
            return Err(IcmpError::InvalidSize);
        }
        if buffer[0] != 0 || buffer[1] != 0 {
            return Err(IcmpError::InvalidPacket);
        }
        let ident: u16 = (buffer[4] as u16) * 0x100 + (buffer[5] as u16);
        let sequence: u16 = (buffer[6] as u16) * 0x100 + (buffer[7] as u16);
        let mut payload: Vec<u8> = Vec::new();
        let mut k: usize = 8;
        proof {
            assert(payload@ =~= buffer@.subrange(8, 8));
        }
        while k < buffer.len()
            invariant
                8 <= k <= buffer@.len(),
                payload@ == buffer@.subrange(8, k as int),
            decreases buffer@.len() - k,
        {
            payload.push(buffer[k]);
            proof {
                assert(buffer@.subrange(8, k + 1) =~= buffer@.subrange(8, k as int).push(
                    buffer@[k as int],
                ));
            }
            k = k + 1;
        }
        proof {
            assert(payload@ =~= buffer@.skip(8));
        }
        Ok(ICMPPacket { typ: buffer[0], code: buffer[1], checksum: 0, ident, sequence, payload })
    }
}

} // verus!
