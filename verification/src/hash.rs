//! Key hashing: CRC-16/XMODEM folded onto the 16384 hash slots.

use vstd::prelude::*;

verus! {

/// Number of hash slots of the keyspace.
pub const HASH_SLOT_MAX: u16 = 16384;

/// The CRC-16/XMODEM checksum of a byte sequence, as `crc` computes it.
pub uninterp spec fn crc16_xmodem(bytes: Seq<u8>) -> u16;

/// The hash slot that a key with the given bytes falls into.
pub open spec fn spec_crc_hash(bytes: Seq<u8>) -> u16 {
    (crc16_xmodem(bytes) % HASH_SLOT_MAX) as u16
}

/// Calls `crc::Crc::<u16>::checksum` with the `CRC_16_XMODEM` algorithm of
/// the catalog. The checksum depends on the bytes alone; the contract only
/// gives it its name.
#[verifier::external_body]
fn xmodem_checksum(bytes: &[u8]) -> (sum: u16)
    ensures
        sum == crc16_xmodem(bytes@),
{
    crc::Crc::<u16>::new(&crc::CRC_16_XMODEM).checksum(bytes)
}

/// Folds a 16-bit checksum onto the slot space.
pub fn slot_of_checksum(sum: u16) -> (slot: u16)
    ensures
        slot == sum % HASH_SLOT_MAX,
        slot < HASH_SLOT_MAX,
{
    sum % HASH_SLOT_MAX
}

/// Hash of a key: its CRC-16/XMODEM checksum modulo the number of slots.
pub fn crc_hash(bytes: &[u8]) -> (hash: u16)
    ensures
        hash == spec_crc_hash(bytes@),
        hash < HASH_SLOT_MAX,
{
    slot_of_checksum(xmodem_checksum(bytes))
}

} // verus!
