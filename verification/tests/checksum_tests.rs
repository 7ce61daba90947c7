use lb_datapath::checksum::{recompute_ipv4_checksum, validate_ipv4_checksum};
use lb_datapath::packet::{read_be16, read_be32, write_be16, write_be32};

/// A 54-byte frame whose IPv4 header (bytes 14..34) is a well-known example
/// header, checksum field zeroed.
fn known_header_frame() -> Vec<u8> {
    let mut f = vec![0u8; 54];
    let hdr: [u8; 20] = [
        0x45, 0x00, 0x00, 0x73, 0x00, 0x00, 0x40, 0x00, 0x40, 0x11, 0x00, 0x00, 0xc0, 0xa8, 0x00,
        0x01, 0xc0, 0xa8, 0x00, 0xc7,
    ];
    f[14..34].copy_from_slice(&hdr);
    f
}

#[test]
fn checksum_known_value() {
    let mut f = known_header_frame();
    recompute_ipv4_checksum(&mut f);
    assert_eq!(f[24], 0xb8);
    assert_eq!(f[25], 0x61);
    assert!(validate_ipv4_checksum(&f));
}

#[test]
fn checksum_recompute_is_idempotent() {
    let mut f = known_header_frame();
    recompute_ipv4_checksum(&mut f);
    let once = f.clone();
    recompute_ipv4_checksum(&mut f);
    assert_eq!(f, once);
}

#[test]
fn checksum_ignores_stale_value_in_field() {
    let mut a = known_header_frame();
    let mut b = known_header_frame();
    b[24] = 0xde;
    b[25] = 0xad;
    recompute_ipv4_checksum(&mut a);
    recompute_ipv4_checksum(&mut b);
    assert_eq!(a, b);
}

#[test]
fn validation_rejects_corrupted_header() {
    let mut f = known_header_frame();
    recompute_ipv4_checksum(&mut f);
    f[18] = f[18].wrapping_add(1);
    assert!(!validate_ipv4_checksum(&f));
}

#[test]
fn validation_rejects_zero_checksum_of_nonzero_header() {
    let f = known_header_frame();
    assert!(!validate_ipv4_checksum(&f));
}

#[test]
fn be16_write_read_roundtrip() {
    let mut f = vec![0u8; 54];
    write_be16(&mut f, 36, 0xabcd);
    assert_eq!(read_be16(&f, 36), 0xabcd);
    assert_eq!(f[36], 0xab);
    assert_eq!(f[37], 0xcd);
}

#[test]
fn be32_write_read_roundtrip() {
    let mut f = vec![0u8; 54];
    write_be32(&mut f, 30, 0x0a000105);
    assert_eq!(read_be32(&f, 30), 0x0a000105);
    assert_eq!(f[30], 0x0a);
    assert_eq!(f[31], 0x00);
    assert_eq!(f[32], 0x01);
    assert_eq!(f[33], 0x05);
}
