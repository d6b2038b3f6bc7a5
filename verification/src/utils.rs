use vstd::prelude::*;
use base64::Engine;

verus! {

/// What base64::engine::general_purpose::STANDARD encodes a byte sequence to.
/// The result is a function of the bytes alone; it is named here rather than
/// restated.
pub uninterp spec fn base64_of(bytes: Seq<u8>) -> Seq<char>;

/// Relies on base64's STANDARD engine: padded base64, four output characters
/// for every started group of three input bytes.
#[verifier::external_body]
pub fn base64_encode(data: &[u8]) -> (r: String)
    requires
        4 * ((data@.len() + 2) / 3) <= usize::MAX,
    ensures
        r@ == base64_of(data@),
        r@.len() == 4 * ((data@.len() + 2) / 3),
{
    base64::engine::general_purpose::STANDARD.encode(data)
}

} // verus!
