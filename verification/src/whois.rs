//! The WHOIS referral client's verified core: the read-until-close loop
//! decision, the search for the referral server token in the registry's
//! response, and the extraction of the netname field from the authoritative
//! server's response. Responses are byte text; tokens are maximal runs of
//! non-whitespace bytes, lines end at a newline, and a trailing carriage
//! return is not part of a line.

use vstd::prelude::*;
use crate::session::ProbeError;

verus! {

/// ASCII whitespace: space, tab, line feed, vertical tab, form feed,
/// carriage return.
pub open spec fn is_space(b: u8) -> bool {
    b == 0x20 || b == 0x09 || b == 0x0A || b == 0x0B || b == 0x0C || b == 0x0D
}

fn is_space_byte(b: u8) -> (r: bool)
    ensures
        r == is_space(b),
{
    b == 0x20 || b == 0x09 || b == 0x0A || b == 0x0B || b == 0x0C || b == 0x0D
}

/// ASCII lowercasing of one byte.
pub open spec fn to_lower(b: u8) -> u8 {
    if 0x41 <= b && b <= 0x5A {
        (b + 0x20) as u8
    } else {
        b
    }
}

fn to_lower_byte(b: u8) -> (r: u8)
    ensures
        r == to_lower(b),
{
    if 0x41 <= b && b <= 0x5A {
        b + 0x20
    } else {
        b
    }
}

/// The end of the token at `p`: the first whitespace position at or after
/// `p`, or the end of the buffer.
pub open spec fn token_end(s: Seq<u8>, p: int) -> int
    recommends
        0 <= p <= s.len(),
    decreases s.len() - p,
    when 0 <= p <= s.len()
{
    if p >= s.len() {
        s.len() as int
    } else if is_space(s[p]) {
        p
    } else {
        token_end(s, p + 1)
    }
}

/// A token starts at `p` when `p` holds a non-space byte that is either the
/// first byte of the buffer or preceded by whitespace.
pub open spec fn is_token_start(s: Seq<u8>, p: int) -> bool {
    0 <= p < s.len() && !is_space(s[p]) && (p == 0 || is_space(s[p - 1]))
}

/// The bytes of "whois.".
pub open spec fn whois_prefix() -> Seq<u8> {
    seq![0x77u8, 0x68u8, 0x6Fu8, 0x69u8, 0x73u8, 0x2Eu8]
}

/// A referral token starts at `p`: a token whose first six bytes read
/// "whois.".
pub open spec fn is_referral_start(s: Seq<u8>, p: int) -> bool {
    is_token_start(s, p) && p + 6 <= s.len() && s.subrange(p, p + 6) == whois_prefix()
}

/// Whether the six bytes at `p` read "whois.".
fn whois_prefix_at(s: &[u8], p: usize) -> (r: bool)
    requires
        p < s@.len(),
    ensures
        r == (p + 6 <= s@.len() && s@.subrange(p as int, p as int + 6) == whois_prefix()),
{
    if s.len() - p < 6 {
        return false;
    }
    let r = s[p] == 0x77 && s[p + 1] == 0x68 && s[p + 2] == 0x6F && s[p + 3] == 0x69 && s[p + 4]
        == 0x73 && s[p + 5] == 0x2E;
    proof {
        let t = s@.subrange(p as int, p as int + 6);
        if r {
            assert(t =~= whois_prefix());
        } else {
            assert(t[0] == s@[p as int] && t[1] == s@[p as int + 1] && t[2] == s@[p as int + 2]
                && t[3] == s@[p as int + 3] && t[4] == s@[p as int + 4] && t[5] == s@[
            p as int + 5]);
        }
    }
    r
}

/// Finds the first whitespace-separated token beginning with "whois." and
/// returns the whole token; `None` when no token begins with that prefix.
pub fn find_referral(resp: &[u8]) -> (r: Option<Vec<u8>>)
    ensures
        r is None ==> forall|p: int| !is_referral_start(resp@, p),
        r matches Some(t) ==> exists|p: int|
            is_referral_start(resp@, p) && t@ == resp@.subrange(p, token_end(resp@, p)) && (
            forall|q: int| 0 <= q < p ==> !is_referral_start(resp@, q)),
{
    let len: usize = resp.len();
    let mut i: usize = 0;
    while i < len
        invariant
            i <= len,
            len == resp@.len(),
            forall|q: int| 0 <= q < i ==> !is_referral_start(resp@, q),
        decreases len - i,
    {
        let at_start = !is_space_byte(resp[i]) && (i == 0 || is_space_byte(resp[i - 1]));
        if at_start && whois_prefix_at(resp, i) {
            let ghost p = i as int;
            assert(is_referral_start(resp@, p));
            let mut j: usize = i;
            while j < len && !is_space_byte(resp[j])
                invariant
                    i <= j <= len,
                    len == resp@.len(),
                    token_end(resp@, i as int) == token_end(resp@, j as int),
                decreases len - j,
            {
                j = j + 1;
            }
            assert(token_end(resp@, p) == j);
            let mut t: Vec<u8> = Vec::new();
            let mut k: usize = i;
            proof {
                assert(t@ =~= resp@.subrange(p, p));
            }
            while k < j
                invariant
                    i <= k <= j <= len,
                    len == resp@.len(),
                    t@ == resp@.subrange(i as int, k as int),
                decreases j - k,
            {
                t.push(resp[k]);
                proof {
                    assert(resp@.subrange(i as int, k + 1) =~= resp@.subrange(
                        i as int,
                        k as int,
                    ).push(resp@[k as int]));
                }
                k = k + 1;
            }
            return Some(t);
        }
        assert(!is_referral_start(resp@, i as int));
        i = i + 1;
    }
    None
}

/// The end of the line at `p`: the first newline at or after `p`, or the
/// end of the buffer.
pub open spec fn line_end(s: Seq<u8>, p: int) -> int
    recommends
        0 <= p <= s.len(),
    decreases s.len() - p,
    when 0 <= p <= s.len()
{
    if p >= s.len() {
        s.len() as int
    } else if s[p] == 0x0A {
        p
    } else {
        line_end(s, p + 1)
    }
}

/// The end of the line's content: a carriage return just before the newline
/// is not part of the line.
pub open spec fn line_content_end(s: Seq<u8>, p: int) -> int
    recommends
        0 <= p <= s.len(),
{
    let q = line_end(s, p);
    if q > p && s[q - 1] == 0x0D {
        q - 1
    } else {
        q
    }
}

/// A line starts at `p` when `p` is the start of the buffer or follows a
/// newline. The position one past a final newline is not a line start:
/// there is no empty final line.
pub open spec fn is_line_start(s: Seq<u8>, p: int) -> bool {
    0 <= p < s.len() && (p == 0 || s[p - 1] == 0x0A)
}

/// The bytes of "netname".
pub open spec fn netname_key() -> Seq<u8> {
    seq![0x6Eu8, 0x65u8, 0x74u8, 0x6Eu8, 0x61u8, 0x6Du8, 0x65u8]
}

/// A netname line starts at `p`: a line whose first seven bytes, lowercased,
/// read "netname". A line shorter than seven bytes never qualifies, because
/// a newline or carriage return never lowercases to a letter.
pub open spec fn is_netname_line(s: Seq<u8>, p: int) -> bool {
    is_line_start(s, p) && p + 7 <= s.len() && (forall|k: int|
        0 <= k < 7 ==> to_lower(#[trigger] s[p + k]) == netname_key()[k])
}

/// The end of the last whitespace-separated token of `s[lo..hi]`, or `lo`
/// when the range is all whitespace.
pub open spec fn last_token_end(s: Seq<u8>, lo: int, hi: int) -> int
    recommends
        0 <= lo <= hi <= s.len(),
    decreases hi - lo,
    when lo <= hi
{
    if hi <= lo {
        lo
    } else if is_space(s[hi - 1]) {
        last_token_end(s, lo, hi - 1)
    } else {
        hi
    }
}

/// The start of the token that ends at `e`: the first position after the
/// nearest whitespace to its left, or `lo`.
pub open spec fn last_token_start(s: Seq<u8>, lo: int, e: int) -> int
    recommends
        0 <= lo <= e <= s.len(),
    decreases e - lo,
    when lo <= e
{
    if e <= lo {
        lo
    } else if is_space(s[e - 1]) {
        e
    } else {
        last_token_start(s, lo, e - 1)
    }
}

/// The netname carried by the line at `p`: the last whitespace-separated
/// token of the line's content.
pub open spec fn netname_value(s: Seq<u8>, p: int) -> Seq<u8>
    recommends
        is_netname_line(s, p),
{
    let hi = line_content_end(s, p);
    let e = last_token_end(s, p, hi);
    let b = last_token_start(s, p, e);
    s.subrange(b, e)
}

/// Whether the seven bytes at `p`, lowercased, read "netname".
fn netname_prefix_at(s: &[u8], p: usize) -> (r: bool)
    requires
        p < s@.len(),
    ensures
        r == (p + 7 <= s@.len() && (forall|k: int|
            0 <= k < 7 ==> to_lower(#[trigger] s@[p + k]) == netname_key()[k])),
{
    if s.len() - p < 7 {
        return false;
    }
    let r = to_lower_byte(s[p]) == 0x6E && to_lower_byte(s[p + 1]) == 0x65 && to_lower_byte(
        s[p + 2],
    ) == 0x74 && to_lower_byte(s[p + 3]) == 0x6E && to_lower_byte(s[p + 4]) == 0x61
        && to_lower_byte(s[p + 5]) == 0x6D && to_lower_byte(s[p + 6]) == 0x65;
    proof {
        if r {
            assert forall|k: int| 0 <= k < 7 implies to_lower(#[trigger] s@[p + k])
                == netname_key()[k] by {
                if k == 0 {
                } else if k == 1 {
                } else if k == 2 {
                } else if k == 3 {
                } else if k == 4 {
                } else if k == 5 {
                } else {
                    assert(k == 6);
                }
            }
        } else {
            assert(!(forall|k: int|
                0 <= k < 7 ==> to_lower(#[trigger] s@[p + k]) == netname_key()[k])) by {
                if to_lower(s@[p as int]) != netname_key()[0] {
                    assert(!(to_lower(s@[p as int + 0]) == netname_key()[0]));
                } else if to_lower(s@[p as int + 1]) != netname_key()[1] {
                } else if to_lower(s@[p as int + 2]) != netname_key()[2] {
                } else if to_lower(s@[p as int + 3]) != netname_key()[3] {
                } else if to_lower(s@[p as int + 4]) != netname_key()[4] {
                } else if to_lower(s@[p as int + 5]) != netname_key()[5] {
                } else {
                    assert(to_lower(s@[p as int + 6]) != netname_key()[6]);
                }
            }
        }
    }
    r
}

/// The ownership record extracted from a referral response.
#[derive(Debug, Default)]
pub struct WhoIsResponse {
    /// The last token of the first line whose field name reads "netname"
    /// case-insensitively; `None` when no line carries that field.
    pub netname: Option<Vec<u8>>,
}

/// Scans the response line by line for the first whose lowercased form
/// starts with "netname" and returns that line's last whitespace-separated
/// token; later netname lines are ignored.
pub fn parse_whois(s: &[u8]) -> (r: WhoIsResponse)
    ensures
        r.netname is None <==> (forall|p: int| !is_netname_line(s@, p)),
        r.netname matches Some(v) ==> exists|p: int|
            is_netname_line(s@, p) && v@ == netname_value(s@, p) && (forall|q: int|
                0 <= q < p ==> !is_netname_line(s@, q)),
{
    let len: usize = s.len();
    let mut p: usize = 0;
    while p < len
        invariant
            p <= len,
            len == s@.len(),
            forall|q: int| 0 <= q < p ==> !is_netname_line(s@, q),
            p < len ==> (p == 0 || s@[p - 1] == 0x0A),
        decreases len - p,
    {
        if netname_prefix_at(s, p) {
            assert(is_netname_line(s@, p as int));
            let ghost gp = p as int;
            // the end of this line
            let mut q: usize = p;
            while q < len && s[q] != 0x0A
                invariant
                    p <= q <= len,
                    len == s@.len(),
                    line_end(s@, p as int) == line_end(s@, q as int),
                    forall|j: int| p <= j < q ==> s@[j] != 0x0A,
                decreases len - q,
            {
                q = q + 1;
            }
            assert(line_end(s@, gp) == q);
            // drop a trailing carriage return
            let hi: usize = if q > p && s[q - 1] == 0x0D {
                q - 1
            } else {
                q
            };
            assert(hi == line_content_end(s@, gp));
            // the last non-space position of the content
            let mut e: usize = hi;
            while e > p && is_space_byte(s[e - 1])
                invariant
                    p <= e <= hi,
                    hi <= len == s@.len(),
                    last_token_end(s@, p as int, hi as int) == last_token_end(
                        s@,
                        p as int,
                        e as int,
                    ),
                decreases e,
            {
                e = e - 1;
            }
            assert(last_token_end(s@, gp, hi as int) == e);
            // the start of the token that ends there
            let mut b: usize = e;
            while b > p && !is_space_byte(s[b - 1])
                invariant
                    p <= b <= e,
                    e <= len == s@.len(),
                    last_token_start(s@, p as int, e as int) == last_token_start(
                        s@,
                        p as int,
                        b as int,
                    ),
                decreases b,
            {
                b = b - 1;
            }
            assert(last_token_start(s@, gp, e as int) == b);
            let mut v: Vec<u8> = Vec::new();
            let mut k: usize = b;
            proof {
                assert(v@ =~= s@.subrange(b as int, b as int));
            }
            while k < e
                invariant
                    b <= k <= e <= len,
                    len == s@.len(),
                    v@ == s@.subrange(b as int, k as int),
                decreases e - k,
            {
                v.push(s[k]);
                proof {
                    assert(s@.subrange(b as int, k + 1) =~= s@.subrange(b as int, k as int).push(
                        s@[k as int],
                    ));
                }
                k = k + 1;
            }
            assert(v@ == netname_value(s@, gp));
            return WhoIsResponse { netname: Some(v) };
        }
        // not a netname line: skip to the position after this line's newline
        let ghost old_p = p as int;
        let mut q: usize = p;
        while q < len && s[q] != 0x0A
            invariant
                p <= q <= len,
                len == s@.len(),
                forall|j: int| p <= j < q ==> s@[j] != 0x0A,
            decreases len - q,
        {
            q = q + 1;
        }
        proof {
            assert forall|qq: int| old_p <= qq <= q as int implies !is_netname_line(s@, qq) by {
                if qq > old_p {
                    assert(s@[qq - 1] != 0x0A);
                    assert(!is_line_start(s@, qq));
                }
            }
        }
        if q >= len {
            p = len;
        } else {
            p = q + 1;
        }
    }
    WhoIsResponse { netname: None }
}

/// The wire form of a WHOIS query: the target's textual form followed by
/// CRLF.
pub fn query_bytes(target: &[u8]) -> (r: Vec<u8>)
    ensures
        r@ == target@ + seq![0x0Du8, 0x0Au8],
{
    let mut r: Vec<u8> = Vec::new();
    r.extend_from_slice(target);
    r.push(0x0D);
    r.push(0x0A);
    proof {
        assert(r@ =~= target@ + seq![0x0Du8, 0x0Au8]);
    }
    r
}

/// What the caller observed for one iteration of the read-until-close loop.
pub enum StreamEvent {
    /// The cancellation signal was set when polled.
    Cancel,
    /// The receive timeout could not be configured on the transport.
    ConfigError,
    /// The blocking receive failed.
    RecvError,
    /// One chunk of bytes arrived; an empty chunk means the peer closed the
    /// connection.
    Chunk(Vec<u8>),
}

/// What the read loop does next.
#[derive(Clone, Copy, Debug, PartialEq, Eq, Structural)]
pub enum StreamStep {
    /// The caller asked to stop; not an error.
    Cancelled,
    /// The attempt is over with a distinguishable error.
    Failed(ProbeError),
    /// The budget is spent before the peer closed the connection.
    TimedOut,
    /// The peer closed the connection; the accumulated bytes are the whole
    /// response.
    Closed,
    /// Keep reading with this timeout.
    Continue { recv_timeout_us: u64 },
}

/// One step of the read-until-close loop over the accumulated response.
/// Cancellation wins over everything else; a failed receive after the
/// budget is spent counts as a timeout; a chunk past the budget times out
/// without being kept; an empty chunk closes the response.
pub fn stream_read_step(
    acc: &mut Vec<u8>,
    event: StreamEvent,
    elapsed_us: u64,
    timeout_us: u64,
) -> (r: StreamStep)
    ensures
        event is Cancel ==> r == StreamStep::Cancelled && final(acc)@ == old(acc)@,
        event is ConfigError ==> r == StreamStep::Failed(ProbeError::ConfigurationFailed)
            && final(acc)@ == old(acc)@,
        event is RecvError ==> final(acc)@ == old(acc)@ && r == (if elapsed_us >= timeout_us {
            StreamStep::TimedOut
        } else {
            StreamStep::Failed(ProbeError::ReceiveFailed)
        }),
        event matches StreamEvent::Chunk(data) ==> (if elapsed_us >= timeout_us {
            r == StreamStep::TimedOut && final(acc)@ == old(acc)@
        } else if data@.len() == 0 {
            r == StreamStep::Closed && final(acc)@ == old(acc)@
        } else {
            r == (StreamStep::Continue { recv_timeout_us: (timeout_us - elapsed_us) as u64 })
                && final(acc)@ == old(acc)@ + data@
        }),
{
    match event {
        StreamEvent::Cancel => StreamStep::Cancelled,
        StreamEvent::ConfigError => StreamStep::Failed(ProbeError::ConfigurationFailed),
        StreamEvent::RecvError => {
            if elapsed_us >= timeout_us {
                StreamStep::TimedOut
            } else {
                StreamStep::Failed(ProbeError::ReceiveFailed)
            }
        },
        StreamEvent::Chunk(data) => {
            if elapsed_us >= timeout_us {
                StreamStep::TimedOut
            } else if data.len() == 0 {
                StreamStep::Closed
            } else {
                acc.extend_from_slice(data.as_slice());
                StreamStep::Continue { recv_timeout_us: timeout_us - elapsed_us }
            }
        },
    }
}

} // verus!
