//! The SCALE encoding of the nonce, through `parity-scale-codec`.
use vstd::prelude::*;

verus! {

/// The SCALE encoding of an `Option<u32>`: a zero byte for `None`; for
/// `Some(v)`, a one byte followed by the four bytes of `v`, least significant
/// first.
pub open spec fn scale_option_u32(value: Option<u32>) -> Seq<u8> {
    match value {
        None => seq![0u8],
        Some(v) => seq![
            1u8,
            (v % 256) as u8,
            ((v / 256) % 256) as u8,
            ((v / 65536) % 256) as u8,
            (v / 16777216) as u8,
        ],
    }
}

/// Calls `<Option<u32> as parity_scale_codec::Encode>::encode`. Trusted: the
/// crate writes `0` for `None`, and `1` then the little-endian bytes of the
/// value for `Some`, which is what the contract states.
#[verifier::external_body]
pub fn encode_option_u32(value: Option<u32>) -> (bytes: Vec<u8>)
    ensures
        bytes@ == scale_option_u32(value),
{
    parity_scale_codec::Encode::encode(&value)
}

} // verus!
