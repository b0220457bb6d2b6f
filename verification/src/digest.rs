//! Checksums and digests computed by outside crates.

use sha2::Digest;
use vstd::prelude::*;

verus! {

/// One bit step of the reflected CRC-32 register (polynomial 0xEDB88320).
pub open spec fn crc32_bit(c: u32) -> u32 {
    if c & 1u32 == 1u32 {
        (c >> 1u32) ^ 0xEDB8_8320u32
    } else {
        c >> 1u32
    }
}

/// The CRC-32 register after taking in byte `b`.
pub open spec fn crc32_byte(c: u32, b: u8) -> u32 {
    let x = c ^ (b as u32);
    crc32_bit(crc32_bit(crc32_bit(crc32_bit(crc32_bit(crc32_bit(crc32_bit(crc32_bit(x))))))))
}

/// The CRC-32 register after taking in `bytes`, starting from `init`.
pub open spec fn crc32_register(init: u32, bytes: Seq<u8>) -> u32
    decreases bytes.len(),
{
    if bytes.len() == 0 {
        init
    } else {
        crc32_byte(crc32_register(init, bytes.drop_last()), bytes.last())
    }
}

/// The CRC-32 (IEEE 802.3: reflected polynomial 0xEDB88320, register starting at all
/// ones, result inverted) of a byte string.
pub open spec fn crc32_of(bytes: Seq<u8>) -> u32 {
    crc32_register(0xFFFF_FFFFu32, bytes) ^ 0xFFFF_FFFFu32
}

/// `crc32fast::hash`: the IEEE CRC-32 of `bytes`, as `crc32_of` states it.
#[verifier::external_body]
pub(crate) fn crc32(bytes: &[u8]) -> (r: u32)
    ensures
        r == crc32_of(bytes@),
{
    crc32fast::hash(bytes)
}

/// Name for the SHA-256 digest of a byte string, as `sha2::Sha256` computes it.
pub uninterp spec fn sha256_of(bytes: Seq<u8>) -> Seq<u8>;

/// `sha2::Sha256::digest`: the SHA-256 of `bytes`, as its 32 bytes. The digest is named
/// by `sha256_of`; stated besides: it is 32 bytes long.
#[verifier::external_body]
pub(crate) fn sha256(bytes: &[u8]) -> (r: Vec<u8>)
    ensures
        r@ == sha256_of(bytes@),
        r@.len() == 32,
{
    sha2::Sha256::digest(bytes).to_vec()
}

} // verus!
