use vstd::prelude::*;

verus! {

/// The characters that lossy UTF-8 decoding yields for the given bytes:
/// valid sequences decode, invalid ones become replacement characters.
pub uninterp spec fn lossy_utf8(bytes: Seq<u8>) -> Seq<char>;

/// Relies on std's String::from_utf8_lossy: its result depends on the
/// bytes alone, decoding valid UTF-8 and substituting U+FFFD elsewhere.
#[verifier::external_body]
pub fn lossy_string(bytes: &Vec<u8>) -> (r: String)
    ensures
        r@ == lossy_utf8(bytes@),
{
    String::from_utf8_lossy(bytes).to_string()
}

} // verus!
