//! SCALE encoding of the concrete payload values, through
//! `parity_scale_codec`.

use vstd::prelude::*;

verus! {

/// The eight little-endian bytes of a 64-bit value.
pub open spec fn u64_le(n: u64) -> Seq<u8> {
    seq![
        (n as int % 256) as u8,
        ((n as int / 0x100) % 256) as u8,
        ((n as int / 0x10000) % 256) as u8,
        ((n as int / 0x1000000) % 256) as u8,
        ((n as int / 0x100000000) % 256) as u8,
        ((n as int / 0x10000000000) % 256) as u8,
        ((n as int / 0x1000000000000) % 256) as u8,
        ((n as int / 0x100000000000000) % 256) as u8,
    ]
}

/// Relies on `parity_scale_codec::Encode` for `u64`: a fixed-width integer
/// encodes as its little-endian bytes.
#[verifier::external_body]
pub fn scale_encode_u64(n: u64) -> (r: Vec<u8>)
    ensures
        r@ == u64_le(n),
{
    parity_scale_codec::Encode::encode(&n)
}

/// Relies on `parity_scale_codec::Encode` for `(u64, u64)`: a tuple encodes
/// as the concatenation of its members' encodings, each `u64` as its eight
/// little-endian bytes.
#[verifier::external_body]
pub fn scale_encode_u64_pair(a: u64, b: u64) -> (r: Vec<u8>)
    ensures
        r@ == u64_le(a) + u64_le(b),
{
    parity_scale_codec::Encode::encode(&(a, b))
}

} // verus!
