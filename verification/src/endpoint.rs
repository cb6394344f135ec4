//! Endpoint ids: the public keys by which peers are known.

use vstd::prelude::*;
use vstd::utf8::encode_utf8;
use crate::bytes::{copy_range, same_bytes};
use crate::text::{hex, hex_of};

verus! {

/// The public key of a peer.
#[derive(Clone, Copy, Debug)]
pub struct EndpointId {
    pub bytes: [u8; 32],
}

impl View for EndpointId {
    type V = Seq<u8>;

    open spec fn view(&self) -> Seq<u8> {
        self.bytes@
    }
}

impl EndpointId {
    /// The hexadecimal form by which an id is shown.
    pub fn to_text(&self) -> (r: String)
        ensures
            r@ == hex_of(self@),
    {
        hex(self.bytes.as_slice())
    }

    /// The first ten digits of the hexadecimal form.
    pub fn short_text(&self) -> (r: String)
        ensures
            r@ == hex_of(self@.take(5)),
    {
        let first = copy_range(self.bytes.as_slice(), 0, 5);
        proof {
            assert(first@ =~= self@.take(5));
        }
        hex(first.as_slice())
    }

    /// Whether both are the same id.
    pub fn same(&self, other: &EndpointId) -> (r: bool)
        ensures
            r == (self@ == other@),
    {
        same_bytes(self.bytes.as_slice(), other.bytes.as_slice())
    }
}

/// Whether 32 bytes are the encoding of a public key.
pub uninterp spec fn is_endpoint_id(bytes: Seq<u8>) -> bool;

/// The id that a text in iroh's own forms (hexadecimal or Base32) writes, or
/// iroh's reason that it writes none.
pub uninterp spec fn endpoint_parse(s: Seq<char>) -> Result<Seq<u8>, Seq<char>>;

/// The id that a text in iroh's own forms writes.
pub open spec fn endpoint_token(s: Seq<char>) -> Option<Seq<u8>> {
    match endpoint_parse(s) {
        Ok(id) => Some(id),
        Err(_) => None,
    }
}

/// Why a text writes no id.
pub open spec fn endpoint_refusal(s: Seq<char>) -> Seq<char> {
    endpoint_parse(s)->Err_0
}

/// Why bytes are no id.
pub open spec fn bad_key_text() -> Seq<char> {
    "data is not a valid public key"@
}

/// The public key of a secret one.
pub uninterp spec fn public_key(secret: Seq<u8>) -> Seq<u8>;

/// `iroh::EndpointId::from_bytes`: succeeds exactly on the bytes that
/// `is_endpoint_id` names, those of a point on the curve, and keeps them. The
/// error's text is the one for bytes that are no key.
#[verifier::external_body]
pub(crate) fn endpoint_id_from_bytes(bytes: [u8; 32]) -> (r: Result<EndpointId, String>)
    ensures
        match r {
            Ok(id) => is_endpoint_id(bytes@) && id@ == bytes@,
            Err(why) => !is_endpoint_id(bytes@) && why@ == bad_key_text(),
        },
{
    match iroh::EndpointId::from_bytes(&bytes) {
        Ok(id) => Ok(EndpointId { bytes: *id.as_bytes() }),
        Err(e) => Err(format!("{e:#}")),
    }
}

/// `iroh::EndpointId`'s `FromStr`. What it makes of a text, the error's text
/// with its causes included, is named by `endpoint_parse`. It takes the
/// lower-case hexadecimal form of 32 bytes, which stands for those bytes, or
/// 52 Base32 symbols, and nothing else; every id that it gives is one.
#[verifier::external_body]
pub(crate) fn parse_endpoint_id(s: &str) -> (r: Result<EndpointId, String>)
    ensures
        match r {
            Ok(id) => endpoint_parse(s@) == Ok::<Seq<u8>, Seq<char>>(id@) && is_endpoint_id(id@),
            Err(why) => endpoint_parse(s@) == Err::<Seq<u8>, Seq<char>>(why@),
        },
        r matches Ok(id) ==> s@ == hex_of(id@) || encode_utf8(s@).len() == 52,
        forall|b: Seq<u8>|
            b.len() == 32 && s@ == #[trigger] hex_of(b) ==> (r is Ok) == is_endpoint_id(b) && (r
                is Ok ==> r->Ok_0@ == b),
{
    match s.parse::<iroh::EndpointId>() {
        Ok(id) => Ok(EndpointId { bytes: *id.as_bytes() }),
        Err(e) => Err(format!("{e:#}")),
    }
}

/// `iroh::SecretKey::from_bytes` and `public`: the public key that belongs to
/// 32 secret bytes, named by `public_key`. It is always an endpoint id.
#[verifier::external_body]
pub(crate) fn public_of(secret: &[u8; 32]) -> (r: EndpointId)
    ensures
        r@ == public_key(secret@),
        is_endpoint_id(r@),
{
    EndpointId { bytes: *iroh::SecretKey::from_bytes(secret).public().as_bytes() }
}

} // verus!
