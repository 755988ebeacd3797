//! Hardware identity of input devices.
//!
//! A physical peripheral may expose several device nodes, possibly under
//! different advertised names. All of them share the vendor/product/version
//! triple reported by the hardware, so that triple is the grouping key.

use vstd::prelude::*;
use vstd::string::StringExecFns;

verus! {

/// Grouping key derived from device hardware metadata. Multiple device
/// nodes (and multiple advertised names) may share one identity.
#[derive(Clone, Copy, Debug, PartialEq, Eq, Hash, Structural)]
pub struct InputId {
    pub vendor: u16,
    pub product: u16,
    pub version: u16,
}

/// The unpadded URL-safe base64 encoding of a byte string.
pub uninterp spec fn base64url_nopad(bytes: Seq<u8>) -> Seq<char>;

/// Relies on base64's `URL_SAFE_NO_PAD` engine (`Engine::encode`): the
/// unpadded URL-safe base64 text of the input, a function of the bytes
/// alone, four characters per three bytes with the last partial chunk
/// shortened (the crate's `encoded_len` without padding).
#[verifier::external_body]
fn encode_base64url(bytes: &Vec<u8>) -> (r: String)
    ensures
        r@ == base64url_nopad(bytes@),
        r@.len() == (4 * bytes@.len() + 2) / 3,
{
    base64::Engine::encode(&base64::engine::general_purpose::URL_SAFE_NO_PAD, bytes)
}

impl InputId {
    pub open spec fn be_bytes(self) -> Seq<u8> {
        seq![
            (self.vendor >> 8) as u8,
            self.vendor as u8,
            (self.product >> 8) as u8,
            self.product as u8,
            (self.version >> 8) as u8,
            self.version as u8,
        ]
    }

    pub fn new(vendor: u16, product: u16, version: u16) -> (r: Self)
        ensures
            r == (InputId { vendor, product, version }),
    {
        InputId { vendor, product, version }
    }

    /// Compact textual form of the identity: the unpadded URL-safe base64
    /// encoding of the three fields as big-endian bytes, always eight
    /// characters.
    pub fn to_base64(&self) -> (r: String)
        ensures
            r@ == base64url_nopad(self.be_bytes()),
            r@.len() == 8,
    {
        let mut bytes: Vec<u8> = Vec::new();
        bytes.push((self.vendor >> 8) as u8);
        bytes.push(self.vendor as u8);
        bytes.push((self.product >> 8) as u8);
        bytes.push(self.product as u8);
        bytes.push((self.version >> 8) as u8);
        bytes.push(self.version as u8);
        proof {
            assert(bytes@ =~= self.be_bytes());
        }
        encode_base64url(&bytes)
    }
}

/// One identity group as listed to selection tooling: the identity and the
/// advertised names of the device nodes currently sharing it.
#[derive(Clone, Debug)]
pub struct BlockableInput {
    pub id: InputId,
    pub names: Vec<String>,
}

/// A newly registered device node, as announced to downstream consumers.
#[derive(Clone, Debug)]
pub struct NewInput {
    pub id: InputId,
    pub name: String,
    pub path: String,
}

/// The display name of a device: its advertised name, else its unique
/// name, else a placeholder built from the identity.
pub fn display_name(name: Option<String>, unique_name: Option<String>, id: &InputId) -> (r: String)
    ensures
        name matches Some(n) ==> r@ == n@,
        name is None ==> (unique_name matches Some(u) ==> r@ == u@),
        (name is None && unique_name is None) ==> r@ == "Unknown device, id: "@ + base64url_nopad(
            id.be_bytes(),
        ),
{
    match name {
        Some(n) => n,
        None => match unique_name {
            Some(u) => u,
            None => {
                let mut s = "Unknown device, id: ".to_owned();
                let b64 = id.to_base64();
                s.append(b64.as_str());
                s
            },
        },
    }
}

} // verus!
