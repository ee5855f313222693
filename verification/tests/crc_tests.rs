use mng_to_pngs::crc::{crc32, null_crc32};

#[test]
fn crc_known_check_value() {
    // The classic CRC-32 check value.
    assert_eq!(crc32(null_crc32(), b"123456789"), 0xCBF43926);
}

#[test]
fn crc_of_end_tag() {
    // The checksum every empty end chunk carries.
    assert_eq!(crc32(null_crc32(), b"IEND"), 0xAE426082);
}

#[test]
fn crc_of_no_bytes_keeps_the_running_value() {
    assert_eq!(crc32(null_crc32(), &[]), 0);
    assert_eq!(crc32(0xDEADBEEF, &[]), 0xDEADBEEF);
}

#[test]
fn crc_chaining_identity() {
    // Two successive updates equal one update over the concatenation.
    let tag: &[u8] = b"IDAT";
    let payload: &[u8] = &[1, 2, 3];
    let mut whole: Vec<u8> = Vec::new();
    whole.extend_from_slice(tag);
    whole.extend_from_slice(payload);
    let chained = crc32(crc32(null_crc32(), tag), payload);
    assert_eq!(chained, crc32(null_crc32(), &whole));
    assert_eq!(chained, 0x533717AD);

    let a: &[u8] = b"hello, ";
    let b: &[u8] = b"world";
    let mut ab: Vec<u8> = Vec::new();
    ab.extend_from_slice(a);
    ab.extend_from_slice(b);
    assert_eq!(crc32(crc32(null_crc32(), a), b), crc32(null_crc32(), &ab));
    assert_eq!(crc32(null_crc32(), &ab), 0xFFAB723A);
}
