//! The status relay's wire protocol: ASCII requests over a byte stream,
//! one zero byte closing each frame, responses framed the same way. This
//! framing is shared bit-exactly between the server side and the client.

use vstd::prelude::*;
use vstd::string::StringSliceAdditionalSpecFns;
use vstd::string::StrSliceExecFns;

verus! {

/// The frame terminator: one zero byte ends every message.
pub const STOP_BYTE: u8 = 0;

/// The ports the relay tries, in order: a few picked with care from the
/// registered range, the rest at random, fixed for interoperability.
pub fn api_ports() -> (r: Vec<u16>)
    ensures
        r@ == seq![49151u16, 28769u16, 19788u16, 62738u16, 34342u16, 12846u16, 8797u16],
{
    let mut v: Vec<u16> = Vec::new();
    v.push(49151);
    v.push(28769);
    v.push(19788);
    v.push(62738);
    v.push(34342);
    v.push(12846);
    v.push(8797);
    proof {
        assert(v@ =~= seq![49151u16, 28769u16, 19788u16, 62738u16, 34342u16, 12846u16, 8797u16]);
    }
    v
}

/// The bytes of the status-message request.
pub open spec fn status_msg_request() -> Seq<u8> {
    "status_msg".spec_bytes()
}

/// The bytes of the idle-time request.
pub open spec fn idle_since_request() -> Seq<u8> {
    "idle_since".spec_bytes()
}

/// The bytes of the subscription request.
pub open spec fn subscribe_request() -> Seq<u8> {
    "subscribe_to_state_changes".spec_bytes()
}

/// A request the relay understands, or not.
#[derive(Clone, Copy, Debug, PartialEq, Eq, Structural)]
pub enum ApiRequest {
    /// Asks for the current status line.
    StatusMsg,
    /// Asks for the seconds since the last input activity.
    IdleSince,
    /// Asks to be streamed every state change from now on.
    Subscribe,
    /// Anything else: the connection is to be dropped.
    Unknown,
}

/// What each request payload means.
pub open spec fn spec_classify(packet: Seq<u8>) -> ApiRequest {
    if packet == status_msg_request() {
        ApiRequest::StatusMsg
    } else if packet == idle_since_request() {
        ApiRequest::IdleSince
    } else if packet == subscribe_request() {
        ApiRequest::Subscribe
    } else {
        ApiRequest::Unknown
    }
}

/// Whether two byte strings are equal.
fn bytes_eq(a: &Vec<u8>, b: &[u8]) -> (r: bool)
    ensures
        r == (a@ == b@),
{
    if a.len() != b.len() {
        return false;
    }
    let n = a.len();
    let mut i: usize = 0;
    while i < n
        invariant
            n == a@.len() == b@.len(),
            0 <= i <= n,
            forall|j: int| 0 <= j < i ==> a@[j] == b@[j],
        decreases n - i,
    {
        if a[i] != b[i] {
            return false;
        }
        i += 1;
    }
    proof {
        assert(a@ =~= b@);
    }
    true
}

/// Classifies one request frame's payload.
pub fn classify_request(packet: &Vec<u8>) -> (r: ApiRequest)
    ensures
        r == spec_classify(packet@),
{
    if bytes_eq(packet, "status_msg".as_bytes()) {
        ApiRequest::StatusMsg
    } else if bytes_eq(packet, "idle_since".as_bytes()) {
        ApiRequest::IdleSince
    } else if bytes_eq(packet, "subscribe_to_state_changes".as_bytes()) {
        ApiRequest::Subscribe
    } else {
        ApiRequest::Unknown
    }
}

/// Frames a payload: the payload's bytes with the terminator appended.
pub fn frame_message(payload: &[u8]) -> (r: Vec<u8>)
    ensures
        r@ == payload@.push(STOP_BYTE),
{
    let n = payload.len();
    let mut r: Vec<u8> = Vec::new();
    let mut i: usize = 0;
    while i < n
        invariant
            n == payload@.len(),
            0 <= i <= n,
            r@ == payload@.take(i as int),
        decreases n - i,
    {
        r.push(payload[i]);
        proof {
            assert(r@ =~= payload@.take(i + 1));
        }
        i += 1;
    }
    r.push(STOP_BYTE);
    proof {
        assert(payload@.take(n as int) == payload@);
    }
    r
}

/// The payload of a frame read with `n_read` bytes: everything before the
/// terminator that came last.
pub fn frame_payload(buf: &Vec<u8>, n_read: usize) -> (r: Vec<u8>)
    requires
        0 < n_read <= buf@.len(),
    ensures
        r@ == buf@.subrange(0, n_read - 1),
{
    let mut r: Vec<u8> = Vec::new();
    let mut i: usize = 0;
    while i < n_read - 1
        invariant
            0 < n_read <= buf@.len(),
            0 <= i <= n_read - 1,
            r@ == buf@.subrange(0, i as int),
        decreases n_read - i,
    {
        r.push(buf[i]);
        proof {
            assert(r@ =~= buf@.subrange(0, i + 1));
        }
        i += 1;
    }
    r
}

/// The request frame asking for the status line.
pub fn status_msg_request_frame() -> (r: Vec<u8>)
    ensures
        r@ == status_msg_request().push(STOP_BYTE),
{
    let payload = "status_msg".as_bytes();
    frame_message(payload)
}

/// The request frame asking for the idle time.
pub fn idle_since_request_frame() -> (r: Vec<u8>)
    ensures
        r@ == idle_since_request().push(STOP_BYTE),
{
    let payload = "idle_since".as_bytes();
    frame_message(payload)
}

/// The request frame asking for the state-change stream.
pub fn subscribe_request_frame() -> (r: Vec<u8>)
    ensures
        r@ == subscribe_request().push(STOP_BYTE),
{
    let payload = "subscribe_to_state_changes".as_bytes();
    frame_message(payload)
}

} // verus!
