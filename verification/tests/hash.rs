use roster::hash::{crc_hash, slot_of_checksum, HASH_SLOT_MAX};

#[test]
fn crc_hash_of_known_keys() {
    assert_eq!(crc_hash(b"foo"), 12182);
    assert_eq!(crc_hash(b"bar"), 5061);
    assert_eq!(crc_hash(b"hello"), 866);
}

#[test]
fn crc_hash_of_check_string() {
    // CRC-16/XMODEM of "123456789" is 0x31C3, which is below the slot count.
    assert_eq!(crc_hash(b"123456789"), 0x31C3);
}

#[test]
fn crc_hash_of_empty_key_is_zero() {
    assert_eq!(crc_hash(b""), 0);
}

#[test]
fn slot_of_checksum_folds_onto_slots() {
    assert_eq!(slot_of_checksum(0), 0);
    assert_eq!(slot_of_checksum(16383), 16383);
    assert_eq!(slot_of_checksum(16384), 0);
    assert_eq!(slot_of_checksum(u16::MAX), 16383);
    assert_eq!(HASH_SLOT_MAX, 16384);
}
