//! The two calls into the SCALE codec that the ledger makes: to write the
//! subject of a draw, and to read a number out of what was drawn.

use vstd::prelude::*;
use vstd::bytes::{spec_u32_from_le_bytes, spec_u32_to_le_bytes};
use parity_scale_codec::{Decode, Encode};

verus! {

/// Calls `parity_scale_codec::Encode::encode` on the pair of `tag` and
/// `counter`. The codec writes a tuple as its fields one after the other, an
/// array of bytes as the bytes themselves and a `u32` as its four bytes, least
/// significant first; the contract says so.
#[verifier::external_body]
pub(crate) fn encode_subject(tag: &[u8; 8], counter: u32) -> (subject: Vec<u8>)
    ensures
        subject@ == tag@ + spec_u32_to_le_bytes(counter),
{
    (*tag, counter).encode()
}

/// Calls `parity_scale_codec::Decode::decode` for `u32` on `bytes`. The codec
/// reads the first four bytes, least significant first, and fails where there
/// are fewer than four; the contract says so.
#[verifier::external_body]
pub(crate) fn decode_u32(bytes: &Vec<u8>) -> (n: Option<u32>)
    ensures
        bytes@.len() < 4 ==> n is None,
        bytes@.len() >= 4 ==> n == Some(spec_u32_from_le_bytes(bytes@.subrange(0, 4))),
{
    u32::decode(&mut &bytes[..]).ok()
}

} // verus!
