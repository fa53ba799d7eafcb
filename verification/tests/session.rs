use sonar::checksum::checksum;
use sonar::icmp::ICMPPacket;
use sonar::session::{
    build_echo_request, probe_step, random_payload, PingReply, ProbeError, ProbeEvent,
    ProbeSession, ProbeStep, PROBE_TIMEOUT_US,
};

fn query() -> ICMPPacket {
    build_echo_request(0x1234, 1, vec![0; 8])
}

/// A minimal IPv4 datagram carrying an echo reply with the given identifier
/// and sequence number.
fn reply_datagram(ident: u16, sequence: u16) -> Vec<u8> {
    let mut buf = vec![0u8; 20];
    buf[0] = 0x45;
    buf[9] = 1;
    buf[12] = 10; // source 10.0.0.1
    buf[15] = 1;
    buf[16] = 10; // destination 10.0.0.2
    buf[19] = 2;
    let inner = [
        0,
        0,
        0,
        0,
        (ident >> 8) as u8,
        (ident & 0xFF) as u8,
        (sequence >> 8) as u8,
        (sequence & 0xFF) as u8,
    ];
    buf.extend_from_slice(&inner);
    buf
}

#[test]
fn cancellation_wins_regardless_of_elapsed_time() {
    let q = query();
    assert_eq!(probe_step(&q, ProbeEvent::Cancel, 0, PROBE_TIMEOUT_US), ProbeStep::Cancelled);
    assert_eq!(probe_step(&q, ProbeEvent::Cancel, 9999, PROBE_TIMEOUT_US), ProbeStep::Cancelled);
}

#[test]
fn no_reply_within_budget_times_out() {
    // The blocking receive gives up at the deadline; the session reports a
    // timeout, not a receive failure.
    let q = query();
    assert_eq!(probe_step(&q, ProbeEvent::RecvError, 2_000_000, 2_000_000), ProbeStep::TimedOut);
    assert_eq!(probe_step(&q, ProbeEvent::RecvError, 2_500_000, 2_000_000), ProbeStep::TimedOut);
}

#[test]
fn receive_failure_before_deadline_fails() {
    let q = query();
    assert_eq!(
        probe_step(&q, ProbeEvent::RecvError, 100_000, 2_000_000),
        ProbeStep::Failed(ProbeError::ReceiveFailed)
    );
}

#[test]
fn timeout_configuration_failure_is_fatal() {
    let q = query();
    assert_eq!(
        probe_step(&q, ProbeEvent::ConfigError, 0, 2_000_000),
        ProbeStep::Failed(ProbeError::ConfigurationFailed)
    );
}

#[test]
fn matching_reply_ends_the_probe() {
    let q = query();
    let datagram = reply_datagram(0x1234, 1);
    let step = probe_step(&q, ProbeEvent::Datagram(datagram), 150_000, 2_000_000);
    assert_eq!(
        step,
        ProbeStep::Matched(PingReply {
            elapsed_us: 150_000,
            sequence: 1,
            from_addr: 0x0A000001,
            dest_addr: 0x0A000002,
        })
    );
}

#[test]
fn reply_with_wrong_identifier_is_discarded() {
    let q = query();
    let step = probe_step(&q, ProbeEvent::Datagram(reply_datagram(0x9999, 1)), 150_000, 2_000_000);
    assert_eq!(step, ProbeStep::Continue { recv_timeout_us: 1_850_000 });
}

#[test]
fn reply_with_wrong_sequence_is_discarded() {
    let q = query();
    let step = probe_step(&q, ProbeEvent::Datagram(reply_datagram(0x1234, 2)), 150_000, 2_000_000);
    assert_eq!(step, ProbeStep::Continue { recv_timeout_us: 1_850_000 });
}

#[test]
fn nonmatching_reply_after_deadline_times_out() {
    let q = query();
    let step = probe_step(&q, ProbeEvent::Datagram(reply_datagram(0x9999, 1)), 2_000_000, 2_000_000);
    assert_eq!(step, ProbeStep::TimedOut);
}

#[test]
fn malformed_outer_header_is_fatal() {
    let q = query();
    let mut datagram = reply_datagram(0x1234, 1);
    datagram[0] = 0x55; // version 5
    let step = probe_step(&q, ProbeEvent::Datagram(datagram), 150_000, 2_000_000);
    assert_eq!(step, ProbeStep::Failed(ProbeError::MalformedOuterHeader));
}

#[test]
fn malformed_inner_frame_is_discarded_not_fatal() {
    let q = query();
    let mut datagram = reply_datagram(0x1234, 1);
    datagram[20] = 8; // an echo request, not a reply
    let step = probe_step(&q, ProbeEvent::Datagram(datagram), 150_000, 2_000_000);
    assert_eq!(step, ProbeStep::Continue { recv_timeout_us: 1_850_000 });
}

#[test]
fn truncated_inner_frame_is_discarded_not_fatal() {
    let q = query();
    let mut datagram = vec![0u8; 20];
    datagram[0] = 0x45;
    datagram[9] = 1;
    datagram.extend_from_slice(&[0, 0, 0]); // 3 bytes of inner frame
    let step = probe_step(&q, ProbeEvent::Datagram(datagram), 150_000, 2_000_000);
    assert_eq!(step, ProbeStep::Continue { recv_timeout_us: 1_850_000 });
}

#[test]
fn echo_request_carries_valid_checksum() {
    let p = build_echo_request(0x1234, 1, vec![0; 64]);
    assert_eq!(p.typ, 8);
    assert_eq!(p.code, 0);
    assert_eq!(p.ident, 0x1234);
    assert_eq!(p.sequence, 1);
    // The full frame, checksum included, sums to zero once complemented.
    let bytes = p.get_bytes(true);
    assert_eq!(checksum(&bytes), 0);
}

#[test]
fn session_sequence_starts_at_one_and_advances_per_send() {
    let mut session = ProbeSession::new();
    assert_eq!(session.sequence, 1);
    let first = session.make_echo_request(vec![0; 4]);
    assert_eq!(first.sequence, 1);
    // Building a query does not consume the number; transmitting it does.
    assert_eq!(session.sequence, 1);
    session.advance_sequence();
    assert_eq!(session.sequence, 2);
    let second = session.make_echo_request(vec![0; 4]);
    assert_eq!(second.sequence, 2);
    let bytes = second.get_bytes(true);
    assert_eq!(checksum(&bytes), 0);
}

#[test]
fn random_payload_has_requested_length() {
    assert_eq!(random_payload(64).len(), 64);
    assert_eq!(random_payload(0).len(), 0);
}
