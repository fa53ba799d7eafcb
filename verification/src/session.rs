//! The decision logic of a probe session. The caller owns the transport and
//! the clock; it reports what happened on each iteration of the reply loop
//! (a cancellation poll, a receive outcome, a datagram) together with the
//! elapsed time, and `probe_step` decides whether the probe matched, timed
//! out, was cancelled, failed, or keeps waiting.

use vstd::prelude::*;
use crate::checksum::checksum_spec;
use crate::icmp;
use crate::icmp::ICMPPacket;
use crate::ipv4;
use crate::ipv4::IPV4Packet;

verus! {

/// The fixed reply budget of one probe attempt, in microseconds.
pub const PROBE_TIMEOUT_US: u64 = 2_000_000;

/// The distinguishable ways a probe or referral query can fail.
#[derive(Clone, Copy, Debug, PartialEq, Eq, Structural)]
pub enum ProbeError {
    /// The transport endpoint could not be acquired.
    TransportAcquisitionFailed,
    /// The TTL or receive timeout could not be configured.
    ConfigurationFailed,
    /// The query frame could not be encoded.
    EncodeFailed,
    /// The query could not be transmitted.
    SendFailed,
    /// A blocking receive failed.
    ReceiveFailed,
    /// A received datagram had a malformed IPv4 header.
    MalformedOuterHeader,
    /// No matching reply arrived within the budget.
    Timeout,
    /// The cancellation signal fired.
    Cancelled,
    /// A name could not be resolved to an address.
    ResolutionFailed,
    /// No referral server was named in a registry response.
    InvalidReferral,
    /// A response was not valid text.
    TextDecodeFailed,
}

/// A successful probe: the reply's sequence number, the addresses of the
/// outer header, and the elapsed round-trip time.
#[derive(Clone, Copy, Debug, PartialEq, Eq, Structural)]
pub struct PingReply {
    pub elapsed_us: u64,
    pub sequence: u16,
    pub from_addr: u32,
    pub dest_addr: u32,
}

/// What the caller observed on one iteration of the reply loop.
pub enum ProbeEvent {
    /// The cancellation signal was set when polled.
    Cancel,
    /// The receive timeout could not be configured on the transport.
    ConfigError,
    /// The blocking receive failed.
    RecvError,
    /// One raw datagram arrived.
    Datagram(Vec<u8>),
}

/// What the session does next.
#[derive(Clone, Copy, Debug, PartialEq, Eq, Structural)]
pub enum ProbeStep {
    /// A reply matched the outstanding query; the probe is done.
    Matched(PingReply),
    /// The budget is spent without a matching reply.
    TimedOut,
    /// The caller asked to stop; not an error.
    Cancelled,
    /// The attempt is over with a distinguishable error.
    Failed(ProbeError),
    /// Keep waiting: receive again with this timeout.
    Continue { recv_timeout_us: u64 },
}

/// The decision for one received datagram: a malformed outer header ends
/// the attempt, a malformed inner frame is discarded and the loop goes on,
/// and a well-formed reply ends the attempt only when both its identifier
/// and its sequence number equal the query's.
pub open spec fn datagram_step_spec(
    ident: u16,
    sequence: u16,
    b: Seq<u8>,
    elapsed_us: u64,
    timeout_us: u64,
) -> ProbeStep {
    if !ipv4::decode_ok(b) {
        ProbeStep::Failed(ProbeError::MalformedOuterHeader)
    } else if !icmp::decode_ok(ipv4::data_of(b)) {
        if elapsed_us >= timeout_us {
            ProbeStep::TimedOut
        } else {
            ProbeStep::Continue { recv_timeout_us: (timeout_us - elapsed_us) as u64 }
        }
    } else if icmp::ident_of(ipv4::data_of(b)) == ident && icmp::seq_of(ipv4::data_of(b))
        == sequence {
        ProbeStep::Matched(
            PingReply {
                elapsed_us,
                sequence,
                from_addr: ipv4::be32_at(b, 12),
                dest_addr: ipv4::be32_at(b, 16),
            },
        )
    } else if elapsed_us >= timeout_us {
        ProbeStep::TimedOut
    } else {
        ProbeStep::Continue { recv_timeout_us: (timeout_us - elapsed_us) as u64 }
    }
}

/// A well-formed reply whose identifier or sequence number differs from the
/// query's never ends the attempt: it is discarded, and the loop either
/// keeps waiting or, once the budget is spent, times out.
pub proof fn lemma_mismatch_never_ends_loop(
    ident: u16,
    sequence: u16,
    b: Seq<u8>,
    elapsed_us: u64,
    timeout_us: u64,
)
    requires
        ipv4::decode_ok(b),
        icmp::decode_ok(ipv4::data_of(b)),
        icmp::ident_of(ipv4::data_of(b)) != ident || icmp::seq_of(ipv4::data_of(b)) != sequence,
    ensures
        !(datagram_step_spec(ident, sequence, b, elapsed_us, timeout_us) is Matched),
        !(datagram_step_spec(ident, sequence, b, elapsed_us, timeout_us) is Failed),
        elapsed_us < timeout_us ==> datagram_step_spec(ident, sequence, b, elapsed_us, timeout_us)
            == (ProbeStep::Continue { recv_timeout_us: (timeout_us - elapsed_us) as u64 }),
        elapsed_us >= timeout_us ==> datagram_step_spec(ident, sequence, b, elapsed_us, timeout_us)
            is TimedOut,
{
}

/// A reply is matched only when both the identifier and the sequence number
/// of the inner frame equal the query's.
pub proof fn lemma_match_requires_ident_and_seq(
    ident: u16,
    sequence: u16,
    b: Seq<u8>,
    elapsed_us: u64,
    timeout_us: u64,
)
    ensures
        datagram_step_spec(ident, sequence, b, elapsed_us, timeout_us) is Matched ==> (
        ipv4::decode_ok(b) && icmp::decode_ok(ipv4::data_of(b)) && icmp::ident_of(
            ipv4::data_of(b),
        ) == ident && icmp::seq_of(ipv4::data_of(b)) == sequence),
{
}

/// One step of the reply loop. Cancellation wins over everything else; a
/// failed receive after the budget is spent counts as a timeout, before
/// that as a receive failure; a datagram is decided by `datagram_step_spec`.
pub fn probe_step(query: &ICMPPacket, event: ProbeEvent, elapsed_us: u64, timeout_us: u64) -> (r:
    ProbeStep)
    ensures
        event is Cancel ==> r == ProbeStep::Cancelled,
        event is ConfigError ==> r == ProbeStep::Failed(ProbeError::ConfigurationFailed),
        event is RecvError ==> r == (if elapsed_us >= timeout_us {
            ProbeStep::TimedOut
        } else {
            ProbeStep::Failed(ProbeError::ReceiveFailed)
        }),
        event matches ProbeEvent::Datagram(b) ==> r == datagram_step_spec(
            query.ident,
            query.sequence,
            b@,
            elapsed_us,
            timeout_us,
        ),
{
    match event {
        ProbeEvent::Cancel => ProbeStep::Cancelled,
        ProbeEvent::ConfigError => ProbeStep::Failed(ProbeError::ConfigurationFailed),
        ProbeEvent::RecvError => {
            if elapsed_us >= timeout_us {
                ProbeStep::TimedOut
            } else {
                ProbeStep::Failed(ProbeError::ReceiveFailed)
            }
        },
        ProbeEvent::Datagram(b) => {
            let outer = match IPV4Packet::decode(b.as_slice()) {
                Ok(p) => p,
                Err(_) => {
                    return ProbeStep::Failed(ProbeError::MalformedOuterHeader);
                },
            };
            let reply = match ICMPPacket::decode(outer.data.as_slice()) {
                Ok(p) => p,
                Err(_) => {
                    if elapsed_us >= timeout_us {
                        return ProbeStep::TimedOut;
                    } else {
                        return ProbeStep::Continue {
                            recv_timeout_us: timeout_us - elapsed_us,
                        };
                    }
                },
            };
            if reply.ident == query.ident && reply.sequence == query.sequence {
                ProbeStep::Matched(
                    PingReply {
                        elapsed_us,
                        sequence: reply.sequence,
                        from_addr: outer.from_addr,
                        dest_addr: outer.dest_addr,
                    },
                )
            } else if elapsed_us >= timeout_us {
                ProbeStep::TimedOut
            } else {
                ProbeStep::Continue { recv_timeout_us: timeout_us - elapsed_us }
            }
        },
    }
}

/// Builds an echo request: type 8, code 0, the given identifier, sequence
/// number and payload, and the checksum of the frame computed with the
/// checksum field zeroed.
pub fn build_echo_request(ident: u16, sequence: u16, payload: Vec<u8>) -> (p: ICMPPacket)
    ensures
        p.typ == 8,
        p.code == 0,
        p.ident == ident,
        p.sequence == sequence,
        p.payload == payload,
        p.checksum == checksum_spec(p.bytes_with(0)),
        checksum_spec(p.bytes_with(p.checksum)) == 0,
{
    let mut packet = ICMPPacket { typ: 8, code: 0, checksum: 0, ident, sequence, payload };
    let cks = packet.calculate_checksum();
    packet.checksum = cks;
    packet
}

/// Relies on fastrand::u16 over the full range: a random identifier.
/// Nothing is promised of the value.
#[verifier::external_body]
fn random_u16() -> u16 {
    fastrand::u16(..)
}

/// Relies on fastrand::u8 over the full range: a random payload byte.
/// Nothing is promised of the value.
#[verifier::external_body]
fn random_u8() -> u8 {
    fastrand::u8(..)
}

/// A payload of `len` random bytes.
pub fn random_payload(len: usize) -> (r: Vec<u8>)
    ensures
        r@.len() == len,
{
    let mut v: Vec<u8> = Vec::new();
    let mut k: usize = 0;
    while k < len
        invariant
            k <= len,
            v@.len() == k,
        decreases len - k,
    {
        v.push(random_u8());
        k = k + 1;
    }
    v
}

/// One probe session's query state: the sequence number of the next echo
/// request, starting at 1 and advancing by one per probe sent.
pub struct ProbeSession {
    pub sequence: u16,
}

impl ProbeSession {
    /// A fresh session; its first probe carries sequence number 1.
    pub fn new() -> (s: ProbeSession)
        ensures
            s.sequence == 1,
    {
        ProbeSession { sequence: 1 }
    }

    /// The next outstanding query: a freshly drawn random identifier, the
    /// session's current sequence number, and the given payload. The
    /// sequence number is not consumed here: the caller advances it once
    /// the query was actually transmitted.
    pub fn make_echo_request(&self, payload: Vec<u8>) -> (p: ICMPPacket)
        ensures
            p.typ == 8,
            p.code == 0,
            p.sequence == self.sequence,
            p.payload == payload,
            p.checksum == checksum_spec(p.bytes_with(0)),
            checksum_spec(p.bytes_with(p.checksum)) == 0,
    {
        let ident = random_u16();
        build_echo_request(ident, self.sequence, payload)
    }

    /// Consumes the current sequence number after a successful
    /// transmission: the next query carries the next number.
    pub fn advance_sequence(&mut self)
        requires
            old(self).sequence < u16::MAX,
        ensures
            final(self).sequence == old(self).sequence + 1,
    {
        self.sequence = self.sequence + 1;
    }
}

} // verus!
