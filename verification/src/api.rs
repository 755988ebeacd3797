//! Client side of the status relay protocol: request framing and response
//! parsing. The connection itself is the caller's; everything that decides
//! what the bytes mean lives here.

use vstd::prelude::*;
use vstd::string::StringExecFns;

use crate::decimal::{all_digits, dec_value, parse_u64_dec};

verus! {

/// What can go wrong talking to the relay.
#[derive(Debug)]
pub enum Error {
    /// No port the relay listens on accepted the connection.
    CouldNotConnect,
    /// The request could not be written.
    WritingRequest,
    /// The response could not be read.
    ReadingResponse,
    /// The response is not valid UTF-8.
    CorruptResponse,
    /// The relay closed the connection.
    ConnectionClosed,
    /// The response should have been a number and was not.
    IncorrectResponse { packet: String },
}

impl Error {
    /// The character sequence `msg_string` renders for each failure.
    pub open spec fn text(self) -> Seq<char> {
        match self {
            Error::CouldNotConnect => "Could not connect on any of the ports the api server listens on"@,
            Error::WritingRequest => "Error writing request"@,
            Error::ReadingResponse => "Error while reading response"@,
            Error::CorruptResponse => "The response is not valid utf8"@,
            Error::ConnectionClosed => "The api server closed the connection, did it halt?"@,
            Error::IncorrectResponse { packet } => "The response should be a number, could not be parsed as one, response: "@
                + packet@,
        }
    }

    /// A human-readable account of the failure.
    pub fn msg_string(&self) -> (r: String)
        ensures
            r@ == self.text(),
    {
        match self {
            Error::CouldNotConnect => "Could not connect on any of the ports the api server listens on".to_owned(),
            Error::WritingRequest => "Error writing request".to_owned(),
            Error::ReadingResponse => "Error while reading response".to_owned(),
            Error::CorruptResponse => "The response is not valid utf8".to_owned(),
            Error::ConnectionClosed => "The api server closed the connection, did it halt?".to_owned(),
            Error::IncorrectResponse { packet } => {
                let mut s =
                    "The response should be a number, could not be parsed as one, response: ".to_owned();
                s.append(packet.as_str());
                s
            },
        }
    }
}

/// What UTF-8 decoding yields for a byte string, if it is valid UTF-8:
/// a function of the bytes alone.
pub uninterp spec fn utf8_decoded(bytes: Seq<u8>) -> Option<Seq<char>>;

/// Relies on String::from_utf8: whether the bytes are valid UTF-8, and
/// the characters they decode to, depend on the bytes alone.
#[verifier::external_body]
fn string_from_utf8(bytes: Vec<u8>) -> (r: Result<String, ()>)
    ensures
        (r is Ok) == (utf8_decoded(bytes@) is Some),
        r matches Ok(s) ==> utf8_decoded(bytes@) == Some(s@),
{
    match String::from_utf8(bytes) {
        Ok(s) => Ok(s),
        Err(_) => Err(()),
    }
}

/// An empty read means the relay hung up; otherwise the payload is the
/// frame without its terminator.
pub fn take_response_payload(buf: &Vec<u8>, n_read: usize) -> (r: Result<Vec<u8>, Error>)
    requires
        n_read <= buf@.len(),
    ensures
        n_read == 0 ==> (r matches Err(e) && e is ConnectionClosed),
        n_read > 0 ==> (r matches Ok(p) && p@ == buf@.subrange(0, n_read - 1)),
{
    if n_read == 0 {
        Err(Error::ConnectionClosed)
    } else {
        Ok(crate::protocol::frame_payload(buf, n_read))
    }
}

/// Parses the idle-time response: the decimal seconds since the last
/// activity. Exactly a nonempty all-digit payload that fits yields the
/// number; otherwise the payload is reported corrupt when it is not
/// UTF-8, and as a wrong response when it is.
pub fn parse_idle_response(packet: Vec<u8>) -> (r: Result<u64, Error>)
    ensures
        (r is Ok) == (packet@.len() > 0 && all_digits(packet@) && dec_value(packet@) <= u64::MAX),
        r matches Ok(v) ==> v == dec_value(packet@),
        r matches Err(e) ==> {
            &&& (e is CorruptResponse) == (utf8_decoded(packet@) is None)
            &&& (e matches Error::IncorrectResponse { packet: p } ==> utf8_decoded(packet@)
                == Some(p@))
        },
{
    match parse_u64_dec(&packet) {
        Some(v) => Ok(v),
        None => match string_from_utf8(packet) {
            Ok(s) => Err(Error::IncorrectResponse { packet: s }),
            Err(()) => Err(Error::CorruptResponse),
        },
    }
}

/// Parses the status-line response: the UTF-8 text of the payload.
pub fn parse_status_response(packet: Vec<u8>) -> (r: Result<String, Error>)
    ensures
        (r is Ok) == (utf8_decoded(packet@) is Some),
        r matches Ok(s) ==> utf8_decoded(packet@) == Some(s@),
        r matches Err(e) ==> e is CorruptResponse,
{
    match string_from_utf8(packet) {
        Ok(s) => Ok(s),
        Err(()) => Err(Error::CorruptResponse),
    }
}

} // verus!
